//! Tier-2 driver interface: the manifest wire format, the closed set of
//! function signatures a manifest can declare, and the manifest builder.
//!
//! A manifest is a 16-byte header followed by `export_count` 36-byte
//! export declarations and `import_count` 52-byte import declarations,
//! all little-endian and byte-packed.

use vstd::prelude::*;

verus! {

/// ABI version of the manifest format.
pub const MANIFEST_ABI_VERSION: u16 = 1;
/// Maximum export/import name length, including the trailing NUL.
pub const NAME_MAX: usize = 32;
/// Maximum host-fn module name length, including the trailing NUL.
pub const MODULE_MAX: usize = 16;
/// Byte size of the manifest header.
pub const HEADER_SIZE: usize = 16;
/// Byte size of one export declaration.
pub const EXPORT_DECL_SIZE: usize = 36;
/// Byte size of one import declaration.
pub const IMPORT_DECL_SIZE: usize = 52;
/// Byte length of the custom-section name `wari_driver_manifest`.
pub const SECTION_NAME_LEN: usize = 20;

/// The four magic bytes `"WDM\0"` that open every manifest.
pub open spec fn magic_spec() -> Seq<u8> {
    seq![0x57u8, 0x44u8, 0x4du8, 0u8]
}

/// The magic bytes as an array.
pub fn magic() -> (r: [u8; 4])
    ensures
        r@ == magic_spec(),
{
    [0x57u8, 0x44u8, 0x4du8, 0u8]
}

/// The UTF-8 bytes of the custom-section name the kernel scans for.
pub open spec fn section_name_spec() -> Seq<u8> {
    seq![
        0x77u8, 0x61u8, 0x72u8, 0x69u8, 0x5fu8, 0x64u8, 0x72u8, 0x69u8, 0x76u8, 0x65u8,
        0x72u8, 0x5fu8, 0x6du8, 0x61u8, 0x6eu8, 0x69u8, 0x66u8, 0x65u8, 0x73u8, 0x74u8,
    ]
}

/// The custom-section name `wari_driver_manifest` as bytes.
pub fn section_name() -> (r: Vec<u8>)
    ensures
        r@ == section_name_spec(),
{
    let r = vec![
        0x77u8, 0x61u8, 0x72u8, 0x69u8, 0x5fu8, 0x64u8, 0x72u8, 0x69u8, 0x76u8, 0x65u8,
        0x72u8, 0x5fu8, 0x6du8, 0x61u8, 0x6eu8, 0x69u8, 0x66u8, 0x65u8, 0x73u8, 0x74u8,
    ];
    assert(r@ =~= section_name_spec());
    r
}

/// Driver kind.
#[derive(Copy, Clone, Debug, PartialEq, Eq, Structural)]
pub enum DriverKind {
    /// Tier-2 UART driver.
    Uart,
    /// Tier-2 network driver.
    Net,
    /// Tier-2 block-device driver (reserved).
    Block,
}

/// The stable wire discriminant of a driver kind.
pub open spec fn driver_kind_code(k: DriverKind) -> u16 {
    match k {
        DriverKind::Uart => 1,
        DriverKind::Net => 2,
        DriverKind::Block => 3,
    }
}

impl DriverKind {
    /// The wire discriminant of this kind.
    pub fn to_raw(self) -> (r: u16)
        ensures
            r == driver_kind_code(self),
    {
        match self {
            DriverKind::Uart => 1,
            DriverKind::Net => 2,
            DriverKind::Block => 3,
        }
    }

    /// Decode a discriminant; `None` for any value no kind carries.
    pub fn from_raw(v: u16) -> (r: Option<Self>)
        ensures
            r.is_some() <==> 1 <= v <= 3,
            r matches Some(k) ==> driver_kind_code(k) == v,
    {
        match v {
            1 => Some(DriverKind::Uart),
            2 => Some(DriverKind::Net),
            3 => Some(DriverKind::Block),
            _ => None,
        }
    }
}

/// Closed set of WASM function signatures a manifest can declare.
#[derive(Copy, Clone, Debug, PartialEq, Eq, Structural)]
pub enum FuncSig {
    /// `() -> ()`
    UnitUnit,
    /// `(u32, u32) -> i32`
    U32xU32I32,
    /// `u32 -> i32`
    U32I32,
    /// `u32 -> u32`
    U32U32,
    /// `u64 -> i32`
    U64I32,
    /// `() -> u64`
    UnitU64,
    /// `(u32, u32, u32, u32, u32) -> i32`
    U32x5I32,
    /// `(u32, u32, u32) -> i32`
    U32x3I32,
}

/// The stable wire discriminant of a signature.
pub open spec fn func_sig_code(s: FuncSig) -> u8 {
    match s {
        FuncSig::UnitUnit => 1,
        FuncSig::U32xU32I32 => 2,
        FuncSig::U32I32 => 3,
        FuncSig::U32U32 => 4,
        FuncSig::U64I32 => 5,
        FuncSig::UnitU64 => 6,
        FuncSig::U32x5I32 => 7,
        FuncSig::U32x3I32 => 8,
    }
}

/// `true` when some signature carries wire discriminant `v`.
pub open spec fn func_sig_known(v: u8) -> bool {
    1 <= v <= 8
}

/// Subset of WASM value types the ABI uses.
#[derive(Copy, Clone, Debug, PartialEq, Eq, Structural)]
pub enum WasmValType {
    /// 32-bit integer (manifest `u32` and `i32` alike).
    I32,
    /// 64-bit integer.
    I64,
}

/// WASM-level shape of a signature: parameter and result value types.
#[derive(Clone, Debug, PartialEq, Eq)]
pub struct WasmSigShape {
    /// Parameter value types.
    pub params: Vec<WasmValType>,
    /// Result value types.
    pub results: Vec<WasmValType>,
}

/// Parameter value types of each signature.
pub open spec fn shape_params(s: FuncSig) -> Seq<WasmValType> {
    match s {
        FuncSig::UnitUnit => seq![],
        FuncSig::U32xU32I32 => seq![WasmValType::I32, WasmValType::I32],
        FuncSig::U32I32 => seq![WasmValType::I32],
        FuncSig::U32U32 => seq![WasmValType::I32],
        FuncSig::U64I32 => seq![WasmValType::I64],
        FuncSig::UnitU64 => seq![],
        FuncSig::U32x5I32 => seq![
            WasmValType::I32,
            WasmValType::I32,
            WasmValType::I32,
            WasmValType::I32,
            WasmValType::I32,
        ],
        FuncSig::U32x3I32 => seq![WasmValType::I32, WasmValType::I32, WasmValType::I32],
    }
}

/// Result value types of each signature.
pub open spec fn shape_results(s: FuncSig) -> Seq<WasmValType> {
    match s {
        FuncSig::UnitUnit => seq![],
        FuncSig::UnitU64 => seq![WasmValType::I64],
        _ => seq![WasmValType::I32],
    }
}

fn i32s(n: usize) -> (r: Vec<WasmValType>)
    ensures
        r@ == Seq::new(n as nat, |i: int| WasmValType::I32),
{
    let mut r: Vec<WasmValType> = Vec::new();
    let mut i: usize = 0;
    while i < n
        invariant
            i <= n,
            r@ == Seq::new(i as nat, |j: int| WasmValType::I32),
        decreases n - i,
    {
        r.push(WasmValType::I32);
        i = i + 1;
        assert(r@ =~= Seq::new(i as nat, |j: int| WasmValType::I32));
    }
    r
}

impl FuncSig {
    /// The wire discriminant of this signature.
    pub fn to_raw(self) -> (r: u8)
        ensures
            r == func_sig_code(self),
    {
        match self {
            FuncSig::UnitUnit => 1,
            FuncSig::U32xU32I32 => 2,
            FuncSig::U32I32 => 3,
            FuncSig::U32U32 => 4,
            FuncSig::U64I32 => 5,
            FuncSig::UnitU64 => 6,
            FuncSig::U32x5I32 => 7,
            FuncSig::U32x3I32 => 8,
        }
    }

    /// Decode a discriminant; `None` for a value from a future ABI.
    pub fn from_raw(v: u8) -> (r: Option<Self>)
        ensures
            r.is_some() <==> func_sig_known(v),
            r matches Some(s) ==> func_sig_code(s) == v,
    {
        match v {
            1 => Some(FuncSig::UnitUnit),
            2 => Some(FuncSig::U32xU32I32),
            3 => Some(FuncSig::U32I32),
            4 => Some(FuncSig::U32U32),
            5 => Some(FuncSig::U64I32),
            6 => Some(FuncSig::UnitU64),
            7 => Some(FuncSig::U32x5I32),
            8 => Some(FuncSig::U32x3I32),
            _ => None,
        }
    }

    /// The WASM-level shape this signature encodes.
    pub fn wasm_shape(self) -> (r: WasmSigShape)
        ensures
            r.params@ == shape_params(self),
            r.results@ == shape_results(self),
    {
        let (np, res) = match self {
            FuncSig::UnitUnit => (0usize, 0usize),
            FuncSig::U32xU32I32 => (2, 1),
            FuncSig::U32I32 => (1, 1),
            FuncSig::U32U32 => (1, 1),
            FuncSig::U64I32 => (1, 1),
            FuncSig::UnitU64 => (0, 2),
            FuncSig::U32x5I32 => (5, 1),
            FuncSig::U32x3I32 => (3, 1),
        };
        let params = if let FuncSig::U64I32 = self {
            vec![WasmValType::I64]
        } else {
            i32s(np)
        };
        let results = if res == 2 {
            vec![WasmValType::I64]
        } else {
            i32s(res)
        };
        assert(params@ =~= shape_params(self));
        assert(results@ =~= shape_results(self));
        WasmSigShape { params, results }
    }
}

/// Socket protocol selector.
#[derive(Copy, Clone, Debug, PartialEq, Eq, Structural)]
pub enum SocketProto {
    /// TCP socket.
    Tcp,
    /// UDP socket.
    Udp,
}

/// The stable wire discriminant of a socket protocol.
pub open spec fn socket_proto_code(p: SocketProto) -> u32 {
    match p {
        SocketProto::Tcp => 1,
        SocketProto::Udp => 2,
    }
}

impl SocketProto {
    /// The wire discriminant of this protocol.
    pub fn to_raw(self) -> (r: u32)
        ensures
            r == socket_proto_code(self),
    {
        match self {
            SocketProto::Tcp => 1,
            SocketProto::Udp => 2,
        }
    }

    /// Decode a raw protocol number; `None` for any unknown value.
    pub fn from_raw(v: u32) -> (r: Option<Self>)
        ensures
            r.is_some() <==> (v == 1 || v == 2),
            r matches Some(p) ==> socket_proto_code(p) == v,
    {
        match v {
            1 => Some(SocketProto::Tcp),
            2 => Some(SocketProto::Udp),
            _ => None,
        }
    }
}

/// Errors the manifest parser and loader surface.
#[derive(Copy, Clone, Debug, PartialEq, Eq, Structural)]
pub enum DriverManifestError {
    /// No `wari_driver_manifest` custom section in the WASM.
    Missing,
    /// A header, declaration array, LEB128 or section would read past the end.
    Truncated,
    /// Header magic is not `"WDM\0"`.
    BadMagic,
    /// `abi_version` is not supported.
    UnsupportedAbiVersion,
    /// `kind` is not a known driver kind.
    UnknownKind,
    /// `kind` does not match the slot being loaded.
    WrongKind,
    /// A declaration's signature is not a known `FuncSig`.
    UnknownSig,
    /// A declared export is absent or mistyped.
    ExportMismatch,
    /// A declared import is not provided by the kernel.
    MissingHostFn,
}

/// The 16-byte manifest header, kept as its little-endian wire bytes.
#[derive(Copy, Clone, Debug)]
pub struct ManifestHeader {
    /// Always the magic `"WDM\0"`.
    pub magic: [u8; 4],
    /// `MANIFEST_ABI_VERSION`, little-endian.
    pub abi_version: [u8; 2],
    /// `DriverKind` discriminant, little-endian.
    pub kind: [u8; 2],
    /// Number of export declarations, little-endian.
    pub export_count: [u8; 2],
    /// Number of import declarations, little-endian.
    pub import_count: [u8; 2],
    /// Reserved flags, little-endian; always zero today.
    pub flags: [u8; 4],
}

/// One export declaration: NUL-padded name, signature, padding.
#[derive(Copy, Clone, Debug)]
pub struct ExportDecl {
    /// Export name, NUL-padded.
    pub name: [u8; 32],
    /// `FuncSig` discriminant.
    pub sig: u8,
    /// Padding; always zero.
    pub _pad: [u8; 3],
}

/// One import declaration: NUL-padded module and name, signature, padding.
#[derive(Copy, Clone, Debug)]
pub struct ImportDecl {
    /// Module name, NUL-padded.
    pub module: [u8; 16],
    /// Import name, NUL-padded.
    pub name: [u8; 32],
    /// Required `FuncSig` discriminant.
    pub sig: u8,
    /// Padding; always zero.
    pub _pad: [u8; 3],
}

/// Little-endian value of two bytes.
pub open spec fn le16(lo: u8, hi: u8) -> u16 {
    (lo + hi * 256) as u16
}

impl ManifestHeader {
    /// The header's wire bytes.
    pub open spec fn bytes(self) -> Seq<u8> {
        self.magic@ + self.abi_version@ + self.kind@ + self.export_count@ + self.import_count@
            + self.flags@
    }
}

impl ExportDecl {
    /// The declaration's wire bytes.
    pub open spec fn bytes(self) -> Seq<u8> {
        self.name@ + seq![self.sig] + self._pad@
    }
}

impl ImportDecl {
    /// The declaration's wire bytes.
    pub open spec fn bytes(self) -> Seq<u8> {
        self.module@ + self.name@ + seq![self.sig] + self._pad@
    }
}

/// Total size in bytes of a manifest with the given counts.
pub open spec fn manifest_size_spec(export_count: int, import_count: int) -> int {
    16 + export_count * 36 + import_count * 52
}

/// Total size in bytes of the manifest payload for the given counts.
pub fn manifest_size(export_count: usize, import_count: usize) -> (r: usize)
    requires
        manifest_size_spec(export_count as int, import_count as int) <= usize::MAX,
    ensures
        r == manifest_size_spec(export_count as int, import_count as int),
{
    16 + export_count * 36 + import_count * 52
}

/// `name` followed by NUL bytes up to `n` bytes in total.
pub open spec fn nul_padded(name: Seq<u8>, n: nat) -> Seq<u8> {
    name + Seq::new((n - name.len()) as nat, |i: int| 0u8)
}

/// Little-endian bytes of a `u16`.
pub open spec fn u16_le(v: u16) -> Seq<u8> {
    seq![(v % 256) as u8, (v / 256) as u8]
}

/// Wire bytes of a header for the given kind and counts.
pub open spec fn header_spec(kind: DriverKind, export_count: u16, import_count: u16) -> Seq<u8> {
    magic_spec() + u16_le(MANIFEST_ABI_VERSION) + u16_le(driver_kind_code(kind)) + u16_le(
        export_count,
    ) + u16_le(import_count) + seq![0u8, 0u8, 0u8, 0u8]
}

/// Wire bytes of one export declaration.
pub open spec fn export_spec(name: Seq<u8>, sig: FuncSig) -> Seq<u8> {
    nul_padded(name, 32) + seq![func_sig_code(sig), 0u8, 0u8, 0u8]
}

/// Wire bytes of one import declaration.
pub open spec fn import_spec(module: Seq<u8>, name: Seq<u8>, sig: FuncSig) -> Seq<u8> {
    nul_padded(module, 16) + nul_padded(name, 32) + seq![func_sig_code(sig), 0u8, 0u8, 0u8]
}

/// Concatenated wire bytes of a list of export declarations.
pub open spec fn exports_spec(exports: Seq<(Seq<u8>, FuncSig)>) -> Seq<u8>
    decreases exports.len(),
{
    if exports.len() == 0 {
        seq![]
    } else {
        exports_spec(exports.drop_last()) + export_spec(exports.last().0, exports.last().1)
    }
}

/// Concatenated wire bytes of a list of import declarations.
pub open spec fn imports_spec(imports: Seq<(Seq<u8>, Seq<u8>, FuncSig)>) -> Seq<u8>
    decreases imports.len(),
{
    if imports.len() == 0 {
        seq![]
    } else {
        imports_spec(imports.drop_last()) + import_spec(
            imports.last().0,
            imports.last().1,
            imports.last().2,
        )
    }
}

/// The byte image of a manifest.
pub open spec fn manifest_spec(
    kind: DriverKind,
    exports: Seq<(Seq<u8>, FuncSig)>,
    imports: Seq<(Seq<u8>, Seq<u8>, FuncSig)>,
) -> Seq<u8> {
    header_spec(kind, (exports.len() % 65536) as u16, (imports.len() % 65536) as u16)
        + exports_spec(exports) + imports_spec(imports)
}

/// The export descriptors as plain byte sequences.
pub open spec fn export_descs(exports: Seq<(&[u8], FuncSig)>) -> Seq<(Seq<u8>, FuncSig)> {
    exports.map_values(|e: (&[u8], FuncSig)| (e.0@, e.1))
}

/// The import descriptors as plain byte sequences.
pub open spec fn import_descs(imports: Seq<(&[u8], &[u8], FuncSig)>) -> Seq<
    (Seq<u8>, Seq<u8>, FuncSig),
> {
    imports.map_values(|e: (&[u8], &[u8], FuncSig)| (e.0@, e.1@, e.2))
}

fn push_u16_le(buf: &mut Vec<u8>, v: u16)
    ensures
        final(buf)@ == old(buf)@ + u16_le(v),
{
    buf.push((v % 256) as u8);
    buf.push((v / 256) as u8);
    assert(final(buf)@ =~= old(buf)@ + u16_le(v));
}

fn push_padded(buf: &mut Vec<u8>, name: &[u8], n: usize)
    requires
        name@.len() <= n,
    ensures
        final(buf)@ == old(buf)@ + nul_padded(name@, n as nat),
{
    let ghost start = buf@;
    let mut k: usize = 0;
    while k < name.len()
        invariant
            k <= name@.len(),
            buf@ == start + name@.subrange(0, k as int),
        decreases name@.len() - k,
    {
        buf.push(name[k]);
        k = k + 1;
        assert(buf@ =~= start + name@.subrange(0, k as int));
    }
    while k < n
        invariant
            name@.len() <= k <= n,
            buf@ == start + name@ + Seq::new((k - name@.len()) as nat, |i: int| 0u8),
        decreases n - k,
    {
        buf.push(0u8);
        k = k + 1;
        assert(buf@ =~= start + name@ + Seq::new((k - name@.len()) as nat, |i: int| 0u8));
    }
    assert(buf@ =~= start + nul_padded(name@, n as nat));
}

/// Build the byte image of a manifest: header, then each export as a
/// NUL-padded name plus signature byte and three zero bytes, then each
/// import as NUL-padded module and name plus signature and padding.
pub fn build_manifest(
    kind: DriverKind,
    exports: &[(&[u8], FuncSig)],
    imports: &[(&[u8], &[u8], FuncSig)],
) -> (r: Vec<u8>)
    requires
        forall|i: int| 0 <= i < exports@.len() ==> (#[trigger] exports@[i]).0@.len() < NAME_MAX,
        forall|i: int|
            0 <= i < imports@.len() ==> (#[trigger] imports@[i]).0@.len() < MODULE_MAX
                && imports@[i].1@.len() < NAME_MAX,
    ensures
        r@ == manifest_spec(kind, export_descs(exports@), import_descs(imports@)),
        r@.len() == manifest_size_spec(exports@.len() as int, imports@.len() as int),
{
    let mut buf: Vec<u8> = Vec::new();
    buf.push(0x57u8);
    buf.push(0x44u8);
    buf.push(0x4du8);
    buf.push(0u8);
    push_u16_le(&mut buf, MANIFEST_ABI_VERSION);
    push_u16_le(&mut buf, kind.to_raw());
    let ec = (exports.len() % 65536) as u16;
    push_u16_le(&mut buf, ec);
    let ic = (imports.len() % 65536) as u16;
    push_u16_le(&mut buf, ic);
    buf.push(0u8);
    buf.push(0u8);
    buf.push(0u8);
    buf.push(0u8);
    let ghost hdr = header_spec(kind, ec, ic);
    assert(buf@ =~= hdr);
    let ghost ex = export_descs(exports@);
    let ghost im = import_descs(imports@);

    let mut e: usize = 0;
    while e < exports.len()
        invariant
            e <= exports@.len(),
            ex == export_descs(exports@),
            buf@ == hdr + exports_spec(ex.subrange(0, e as int)),
            buf@.len() == 16 + 36 * e,
            forall|i: int| 0 <= i < exports@.len() ==> (#[trigger] exports@[i]).0@.len() < NAME_MAX,
        decreases exports@.len() - e,
    {
        let (name, sig) = exports[e];
        push_padded(&mut buf, name, NAME_MAX);
        buf.push(sig.to_raw());
        buf.push(0u8);
        buf.push(0u8);
        buf.push(0u8);
        proof {
            let s = ex.subrange(0, e + 1);
            assert(s.drop_last() =~= ex.subrange(0, e as int));
            assert(s.last() == (name@, sig));
            assert(buf@ =~= hdr + exports_spec(s));
        }
        e = e + 1;
    }
    assert(ex.subrange(0, exports@.len() as int) =~= ex);
    let ghost mid = buf@;

    let mut m: usize = 0;
    while m < imports.len()
        invariant
            m <= imports@.len(),
            im == import_descs(imports@),
            buf@ == mid + imports_spec(im.subrange(0, m as int)),
            buf@.len() == mid.len() + 52 * m,
            forall|i: int|
                0 <= i < imports@.len() ==> (#[trigger] imports@[i]).0@.len() < MODULE_MAX
                    && imports@[i].1@.len() < NAME_MAX,
        decreases imports@.len() - m,
    {
        let (module, name, sig) = imports[m];
        push_padded(&mut buf, module, MODULE_MAX);
        push_padded(&mut buf, name, NAME_MAX);
        buf.push(sig.to_raw());
        buf.push(0u8);
        buf.push(0u8);
        buf.push(0u8);
        proof {
            let s = im.subrange(0, m + 1);
            assert(s.drop_last() =~= im.subrange(0, m as int));
            assert(s.last() == (module@, name@, sig));
            assert(buf@ =~= mid + imports_spec(s));
        }
        m = m + 1;
    }
    assert(im.subrange(0, imports@.len() as int) =~= im);
    assert(buf@ =~= manifest_spec(kind, ex, im));
    buf
}

/// Pad an ASCII name into an `N`-byte NUL-terminated buffer.
pub fn pad_name<const N: usize>(name: &[u8]) -> (r: [u8; N])
    requires
        name@.len() < N,
    ensures
        r@ == nul_padded(name@, N as nat),
        r@[name@.len() as int] == 0,
{
    let mut out = [0u8; N];
    let mut i: usize = 0;
    while i < N
        invariant
            i <= N,
            name@.len() < N,
            out@.len() == N,
            forall|j: int| 0 <= j < i ==> out@[j] == (if j < name@.len() { name@[j] } else { 0u8 }),
        decreases N - i,
    {
        let b: u8 = if i < name.len() { name[i] } else { 0 };
        out[i] = b;
        i = i + 1;
    }
    assert(out@ =~= nul_padded(name@, N as nat));
    out
}


/// The contract a Tier-2 UART driver implements: deliver bytes to the
/// serial controller, returning the number written or a negative errno.
pub trait UartDriver {
    /// Push `buf` to the UART.
    fn write(buf: &[u8]) -> i32;
}

/// The contract a Tier-2 network driver implements: one-shot start, the
/// poll the kernel drives from its idle loop, the raw frame path and the
/// socket calls behind the Tier-1 `wari::net_socket_*` host calls.
/// Results are 0 or a positive handle on success, a negative errno
/// otherwise.
pub trait NetDriver {
    /// One-shot device initialisation.
    fn start();
    /// Drive the network stack at monotonic time `timestamp_ms`;
    /// 1 if anything changed, else 0.
    fn poll(timestamp_ms: u64) -> i32;
    /// Queue one frame for transmission.
    fn tx_send(buf: &[u8]) -> i32;
    /// Take one received frame: `(buf_off << 32) | len`, or 0 when none.
    fn rx_pop() -> u64;
    /// Give receive descriptor `desc_idx` back to the device.
    fn rx_recycle(desc_idx: u32) -> i32;
    /// Open a socket of protocol `proto`.
    fn socket_create(proto: u32) -> i32;
    /// Close socket `handle`.
    fn socket_close(handle: u32) -> i32;
    /// Bind socket `handle` to IPv4 `ip_be` (big-endian) and `port`.
    fn socket_bind(handle: u32, ip_be: u32, port: u32) -> i32;
    /// Listen on bound socket `handle`.
    fn socket_listen(handle: u32, backlog: u32) -> i32;
}

} // verus!
