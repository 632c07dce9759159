use vstd::prelude::*;
use vstd::slice::{slice_subrange, slice_to_vec};
use crate::session_info::{session_info_of, IbtSessionInfo};

verus! {

/// Why a recording could not be read.
#[derive(Debug, Clone, Copy, PartialEq, Eq, Structural)]
pub enum IbtError {
    /// A type code is unknown, or an offset or a count lies outside the file.
    MalformedHeader,
    /// A region that the header declares runs past the end of the file.
    TruncatedFile,
    /// The header's version is not one this parser reads.
    UnsupportedVersion,
    /// A sample index at or past the number of samples.
    OutOfRange,
}

/// The one header version that is read.
pub const SUPPORTED_VERSION: i32 = 2;

/// Size of the fixed file header.
pub const HEADER_LEN: usize = 48;

/// Offset of the first buffer descriptor.
pub const VAR_BUF_OFFSET: usize = 48;

/// Offset of the disk sub-header.
pub const DISK_HEADER_OFFSET: usize = 112;

/// The file must hold at least the header, the first descriptor and the disk sub-header.
pub const MIN_FILE_LEN: usize = 144;

/// Size of one entry of the variable table.
pub const VAR_HEADER_LEN: usize = 144;

// ---------------------------------------------------------------------------
// Little-endian integers
// ---------------------------------------------------------------------------

/// The unsigned 32-bit integer stored little-endian at `i`.
pub open spec fn le_u32(b: Seq<u8>, i: int) -> u32 {
    (b[i] as int + b[i + 1] as int * 0x100 + b[i + 2] as int * 0x10000 + b[i + 3] as int
        * 0x1000000) as u32
}

/// The signed 32-bit integer stored little-endian at `i`.
pub open spec fn le_i32(b: Seq<u8>, i: int) -> i32 {
    le_u32(b, i) as i32
}

/// The unsigned 64-bit integer stored little-endian at `i`.
pub open spec fn le_u64(b: Seq<u8>, i: int) -> u64 {
    (le_u32(b, i) as int + le_u32(b, i + 4) as int * 0x1_0000_0000) as u64
}

/// The signed 64-bit integer stored little-endian at `i`.
pub open spec fn le_i64(b: Seq<u8>, i: int) -> i64 {
    le_u64(b, i) as i64
}

pub fn read_u32(b: &[u8], i: usize) -> (r: u32)
    requires
        i + 4 <= b@.len(),
    ensures
        r == le_u32(b@, i as int),
{
    b[i] as u32 + b[i + 1] as u32 * 0x100 + b[i + 2] as u32 * 0x10000 + b[i + 3] as u32
        * 0x1000000
}

pub fn read_i32(b: &[u8], i: usize) -> (r: i32)
    requires
        i + 4 <= b@.len(),
    ensures
        r == le_i32(b@, i as int),
{
    read_u32(b, i) as i32
}

pub fn read_u64(b: &[u8], i: usize) -> (r: u64)
    requires
        i + 8 <= b@.len(),
    ensures
        r == le_u64(b@, i as int),
{
    // a slice's length fits in usize, so `i + 4` does too
    let _len = b.len();
    let lo = read_u32(b, i) as u64;
    let hi = read_u32(b, i + 4) as u64;
    lo + hi * 0x1_0000_0000
}

pub fn read_i64(b: &[u8], i: usize) -> (r: i64)
    requires
        i + 8 <= b@.len(),
    ensures
        r == le_i64(b@, i as int),
{
    read_u64(b, i) as i64
}

// ---------------------------------------------------------------------------
// Variable types and values
// ---------------------------------------------------------------------------

/// The type of a recorded variable.
#[derive(Debug, Clone, Copy, PartialEq, Eq, Structural)]
pub enum VarType {
    Char,
    Bool,
    Int,
    BitField,
    Float,
    Double,
}

/// The type that a type code names, if any.
pub open spec fn var_type_of(code: i32) -> Option<VarType> {
    if code == 0 {
        Some(VarType::Char)
    } else if code == 1 {
        Some(VarType::Bool)
    } else if code == 2 {
        Some(VarType::Int)
    } else if code == 3 {
        Some(VarType::BitField)
    } else if code == 4 {
        Some(VarType::Float)
    } else if code == 5 {
        Some(VarType::Double)
    } else {
        None
    }
}

/// Size in bytes of one element of a type.
pub open spec fn elem_size(t: VarType) -> nat {
    match t {
        VarType::Char | VarType::Bool => 1,
        VarType::Int | VarType::BitField | VarType::Float => 4,
        VarType::Double => 8,
    }
}

impl VarType {
    /// The type that a type code names; an unknown code is malformed.
    pub fn from_i32(val: i32) -> (r: Result<VarType, IbtError>)
        ensures
            var_type_of(val) is Some ==> r == Ok::<VarType, IbtError>(var_type_of(val)->0),
            var_type_of(val) is None ==> r == Err::<VarType, IbtError>(IbtError::MalformedHeader),
    {
        match val {
            0 => Ok(VarType::Char),
            1 => Ok(VarType::Bool),
            2 => Ok(VarType::Int),
            3 => Ok(VarType::BitField),
            4 => Ok(VarType::Float),
            5 => Ok(VarType::Double),
            _ => Err(IbtError::MalformedHeader),
        }
    }

    /// Size in bytes of one element of this type.
    pub fn element_size(&self) -> (r: usize)
        ensures
            r == elem_size(*self),
    {
        match self {
            VarType::Char => 1,
            VarType::Bool => 1,
            VarType::Int => 4,
            VarType::BitField => 4,
            VarType::Float => 4,
            VarType::Double => 8,
        }
    }
}

/// A value read from a sample. Floating-point values are kept as their IEEE-754 bit
/// patterns (`f32::from_bits`, `f64::from_bits` give the numbers).
#[derive(Debug, Clone, PartialEq, Eq)]
pub enum VarValue {
    Char(u8),
    Bool(bool),
    Int(i32),
    BitField(u32),
    Float(u32),
    Double(u64),
    CharArray(Vec<u8>),
    IntArray(Vec<i32>),
    FloatArray(Vec<u32>),
    DoubleArray(Vec<u64>),
}

/// What a `VarValue` holds.
pub ghost enum ValueView {
    Char(u8),
    Bool(bool),
    Int(i32),
    BitField(u32),
    Float(u32),
    Double(u64),
    CharArray(Seq<u8>),
    IntArray(Seq<i32>),
    FloatArray(Seq<u32>),
    DoubleArray(Seq<u64>),
}

impl View for VarValue {
    type V = ValueView;

    open spec fn view(&self) -> ValueView {
        match self {
            VarValue::Char(c) => ValueView::Char(*c),
            VarValue::Bool(b) => ValueView::Bool(*b),
            VarValue::Int(i) => ValueView::Int(*i),
            VarValue::BitField(u) => ValueView::BitField(*u),
            VarValue::Float(f) => ValueView::Float(*f),
            VarValue::Double(d) => ValueView::Double(*d),
            VarValue::CharArray(v) => ValueView::CharArray(v@),
            VarValue::IntArray(v) => ValueView::IntArray(v@),
            VarValue::FloatArray(v) => ValueView::FloatArray(v@),
            VarValue::DoubleArray(v) => ValueView::DoubleArray(v@),
        }
    }
}

impl VarValue {
    /// A copy of the value.
    pub fn copied(&self) -> (r: VarValue)
        ensures
            r@ == self@,
    {
        match self {
            VarValue::Char(c) => VarValue::Char(*c),
            VarValue::Bool(b) => VarValue::Bool(*b),
            VarValue::Int(i) => VarValue::Int(*i),
            VarValue::BitField(u) => VarValue::BitField(*u),
            VarValue::Float(f) => VarValue::Float(*f),
            VarValue::Double(d) => VarValue::Double(*d),
            VarValue::CharArray(v) => VarValue::CharArray(slice_to_vec(v.as_slice())),
            VarValue::IntArray(v) => VarValue::IntArray(slice_to_vec(v.as_slice())),
            VarValue::FloatArray(v) => VarValue::FloatArray(slice_to_vec(v.as_slice())),
            VarValue::DoubleArray(v) => VarValue::DoubleArray(slice_to_vec(v.as_slice())),
        }
    }

    /// The value as a flag: a bool, or an integer that is not zero.
    pub fn as_bool(&self) -> (r: Option<bool>)
        ensures
            r == match self@ {
                ValueView::Bool(v) => Some(v),
                ValueView::Int(v) => Some(v != 0),
                _ => None::<bool>,
            },
    {
        match self {
            VarValue::Bool(v) => Some(*v),
            VarValue::Int(v) => Some(*v != 0),
            _ => None,
        }
    }

    /// The value as a bitfield: a bitfield, or an integer's two's-complement bits.
    pub fn as_u32(&self) -> (r: Option<u32>)
        ensures
            r == match self@ {
                ValueView::BitField(v) => Some(v),
                ValueView::Int(v) => Some(v as u32),
                _ => None::<u32>,
            },
    {
        match self {
            VarValue::BitField(v) => Some(*v),
            VarValue::Int(v) => Some(*v as u32),
            _ => None,
        }
    }
}

// ---------------------------------------------------------------------------
// Text fields
// ---------------------------------------------------------------------------

/// What `String::from_utf8_lossy` makes of some bytes.
pub uninterp spec fn lossy_of(b: Seq<u8>) -> Seq<char>;

/// Relies on `String::from_utf8_lossy`: the text depends on the bytes alone.
#[verifier::external_body]
fn utf8_lossy(b: &[u8]) -> (r: String)
    ensures
        r@ == lossy_of(b@),
{
    String::from_utf8_lossy(b).into_owned()
}

/// The bytes before the first zero byte, or all of them.
pub open spec fn until_nul(b: Seq<u8>) -> Seq<u8> {
    if exists|i: int| 0 <= i < b.len() && b[i] == 0 {
        b.take(choose|i: int| 0 <= i < b.len() && b[i] == 0 && forall|k: int| 0 <= k < i ==> b[k] != 0)
    } else {
        b
    }
}

/// Decodes a zero-terminated text field; without a zero byte the whole field is text.
pub fn read_null_terminated_string(buf: &[u8]) -> (r: String)
    ensures
        r@ == lossy_of(until_nul(buf@)),
{
    let n = buf.len();
    let mut end: usize = 0;
    while end < n && buf[end] != 0
        invariant
            end <= n,
            n == buf@.len(),
            forall|k: int| 0 <= k < end ==> buf@[k] != 0,
        decreases n - end,
    {
        end = end + 1;
    }
    proof {
        let b = buf@;
        if end < n {
            assert(b[end as int] == 0);
            let c = choose|i: int| 0 <= i < b.len() && b[i] == 0 && forall|k: int| 0 <= k < i ==> b[k] != 0;
            assert(0 <= end < b.len() && b[end as int] == 0 && forall|k: int| 0 <= k < end ==> b[k] != 0);
            if c < end {
                assert(b[c] != 0);
            }
            if c > end {
                assert(b[end as int] != 0);
            }
            assert(c == end);
        } else {
            assert(b.take(end as int) =~= b);
        }
    }
    utf8_lossy(slice_subrange(buf, 0, end))
}

// ---------------------------------------------------------------------------
// Headers
// ---------------------------------------------------------------------------

/// The fixed file header at offset 0.
#[derive(Debug, Clone, Copy, PartialEq, Eq, Structural)]
pub struct IbtHeader {
    pub ver: i32,
    pub status: i32,
    pub tick_rate: i32,
    pub session_info_update: i32,
    pub session_info_len: i32,
    pub session_info_offset: i32,
    pub num_vars: i32,
    pub var_header_offset: i32,
    pub num_buf: i32,
    pub buf_len: i32,
}

pub open spec fn header_of(d: Seq<u8>) -> IbtHeader {
    IbtHeader {
        ver: le_i32(d, 0),
        status: le_i32(d, 4),
        tick_rate: le_i32(d, 8),
        session_info_update: le_i32(d, 12),
        session_info_len: le_i32(d, 16),
        session_info_offset: le_i32(d, 20),
        num_vars: le_i32(d, 24),
        var_header_offset: le_i32(d, 28),
        num_buf: le_i32(d, 32),
        buf_len: le_i32(d, 36),
    }
}

impl IbtHeader {
    /// Decodes the file header from the start of `d`.
    pub fn read(d: &[u8]) -> (r: Result<IbtHeader, IbtError>)
        ensures
            d@.len() < HEADER_LEN ==> r == Err::<IbtHeader, IbtError>(IbtError::TruncatedFile),
            d@.len() >= HEADER_LEN ==> r == Ok::<IbtHeader, IbtError>(header_of(d@)),
    {
        if d.len() < HEADER_LEN {
            return Err(IbtError::TruncatedFile);
        }
        Ok(IbtHeader {
            ver: read_i32(d, 0),
            status: read_i32(d, 4),
            tick_rate: read_i32(d, 8),
            session_info_update: read_i32(d, 12),
            session_info_len: read_i32(d, 16),
            session_info_offset: read_i32(d, 20),
            num_vars: read_i32(d, 24),
            var_header_offset: read_i32(d, 28),
            num_buf: read_i32(d, 32),
            buf_len: read_i32(d, 36),
        })
    }
}

/// The first buffer descriptor: where the samples begin.
#[derive(Debug, Clone, Copy, PartialEq, Eq, Structural)]
pub struct VarBuf {
    pub tick_count: i32,
    pub buf_offset: i32,
}

pub open spec fn var_buf_of(d: Seq<u8>) -> VarBuf {
    VarBuf { tick_count: le_i32(d, 48), buf_offset: le_i32(d, 52) }
}

/// The disk sub-header. Start and end times are kept as `f64` bit patterns.
#[derive(Debug, Clone, Copy, PartialEq, Eq, Structural)]
pub struct DiskSubHeader {
    pub session_start_date: i64,
    pub session_start_time_bits: u64,
    pub session_end_time_bits: u64,
    pub session_lap_count: i32,
    pub session_record_count: i32,
}

pub open spec fn disk_sub_header_of(d: Seq<u8>) -> DiskSubHeader {
    DiskSubHeader {
        session_start_date: le_i64(d, 112),
        session_start_time_bits: le_u64(d, 120),
        session_end_time_bits: le_u64(d, 128),
        session_lap_count: le_i32(d, 136),
        session_record_count: le_i32(d, 140),
    }
}

/// One entry of the variable table.
#[derive(Debug, Clone)]
pub struct VarHeader {
    pub var_type: VarType,
    pub offset: i32,
    pub count: i32,
    pub count_as_time: bool,
    pub name: String,
    pub desc: String,
    pub unit: String,
}

pub ghost struct VarHeaderView {
    pub var_type: VarType,
    pub offset: i32,
    pub count: i32,
    pub count_as_time: bool,
    pub name: Seq<char>,
    pub desc: Seq<char>,
    pub unit: Seq<char>,
}

impl View for VarHeader {
    type V = VarHeaderView;

    open spec fn view(&self) -> VarHeaderView {
        VarHeaderView {
            var_type: self.var_type,
            offset: self.offset,
            count: self.count,
            count_as_time: self.count_as_time,
            name: self.name@,
            desc: self.desc@,
            unit: self.unit@,
        }
    }
}

/// The text of the zero-terminated field `d[a..b]`.
pub open spec fn text_field(d: Seq<u8>, a: int, b: int) -> Seq<char> {
    lossy_of(until_nul(d.subrange(a, b)))
}

/// The table entry that starts at `o`.
pub open spec fn var_header_at(d: Seq<u8>, o: int) -> VarHeaderView {
    VarHeaderView {
        var_type: var_type_of(le_i32(d, o))->0,
        offset: le_i32(d, o + 4),
        count: le_i32(d, o + 8),
        count_as_time: d[o + 12] != 0,
        name: text_field(d, o + 16, o + 48),
        desc: text_field(d, o + 48, o + 112),
        unit: text_field(d, o + 112, o + 144),
    }
}

/// Offset of entry `k` of the variable table.
pub open spec fn entry_offset(d: Seq<u8>, k: int) -> int {
    header_of(d).var_header_offset + 144 * k
}

/// The variable table.
pub open spec fn vars_of(d: Seq<u8>) -> Seq<VarHeaderView> {
    Seq::new(header_of(d).num_vars as nat, |k: int| var_header_at(d, entry_offset(d, k)))
}

/// Whether every entry of the table has a known type code.
pub open spec fn types_known(d: Seq<u8>) -> bool {
    forall|k: int| 0 <= k < header_of(d).num_vars ==> #[trigger] var_type_of(le_i32(d, entry_offset(d, k))) is Some
}

/// Where the samples begin.
pub open spec fn base_of(d: Seq<u8>) -> int {
    var_buf_of(d).buf_offset as int
}

/// The number of samples.
pub open spec fn record_count_of(d: Seq<u8>) -> int {
    disk_sub_header_of(d).session_record_count as int
}

/// What is wrong with a file, in the order the checks are made; `None` when it can be read.
pub open spec fn file_error(d: Seq<u8>) -> Option<IbtError> {
    let h = header_of(d);
    let len = d.len() as int;
    if len < MIN_FILE_LEN {
        Some(IbtError::TruncatedFile)
    } else if h.ver != SUPPORTED_VERSION {
        Some(IbtError::UnsupportedVersion)
    } else if h.num_buf < 1 || h.num_buf > 4 {
        Some(IbtError::MalformedHeader)
    } else if h.num_vars < 0 || h.var_header_offset < 0 || h.var_header_offset > len {
        Some(IbtError::MalformedHeader)
    } else if h.var_header_offset + 144 * h.num_vars > len {
        Some(IbtError::TruncatedFile)
    } else if !types_known(d) {
        Some(IbtError::MalformedHeader)
    } else if h.session_info_len < 0 || h.session_info_offset < 0 || h.session_info_offset > len {
        Some(IbtError::MalformedHeader)
    } else if h.session_info_offset + h.session_info_len > len {
        Some(IbtError::TruncatedFile)
    } else if h.buf_len < 0 || record_count_of(d) < 0 || base_of(d) < 0 || base_of(d) > len {
        Some(IbtError::MalformedHeader)
    } else if base_of(d) + record_count_of(d) * h.buf_len > len {
        Some(IbtError::TruncatedFile)
    } else {
        None
    }
}

/// The embedded YAML text.
pub open spec fn yaml_of(d: Seq<u8>) -> Seq<char> {
    let h = header_of(d);
    text_field(d, h.session_info_offset as int, h.session_info_offset + h.session_info_len)
}

// ---------------------------------------------------------------------------
// Samples
// ---------------------------------------------------------------------------

/// Whether variable `v` lies inside a sample of `len` bytes.
pub open spec fn fits(v: VarHeaderView, len: int) -> bool {
    0 <= v.offset && 0 <= v.count && v.offset + v.count * elem_size(v.var_type) <= len
}

/// The scalar of type `t` at `o`, where all of it lies inside `b`.
pub open spec fn scalar_at(b: Seq<u8>, o: int, t: VarType) -> Option<ValueView> {
    if 0 <= o && o + elem_size(t) <= b.len() {
        Some(
            match t {
                VarType::Char => ValueView::Char(b[o]),
                VarType::Bool => ValueView::Bool(b[o] != 0),
                VarType::Int => ValueView::Int(le_i32(b, o)),
                VarType::BitField => ValueView::BitField(le_u32(b, o)),
                VarType::Float => ValueView::Float(le_u32(b, o)),
                VarType::Double => ValueView::Double(le_u64(b, o)),
            },
        )
    } else {
        None
    }
}

/// How many of `count` elements of `size` bytes from `o` on lie inside `len` bytes.
pub open spec fn fitting(len: int, o: int, size: int, count: nat) -> nat
    decreases count,
{
    if count == 0 {
        0
    } else if o + size * count <= len {
        count
    } else {
        fitting(len, o, size, (count - 1) as nat)
    }
}

/// The array of `count` elements of type `t` at `o`: a character array only where it
/// lies whole inside `b`; a numeric array of the elements that do.
pub open spec fn array_at(b: Seq<u8>, o: int, t: VarType, count: nat) -> Option<ValueView> {
    let n = fitting(b.len() as int, o, elem_size(t) as int, count);
    match t {
        VarType::Char | VarType::Bool => if o + count <= b.len() {
            Some(ValueView::CharArray(b.subrange(o, o + count)))
        } else {
            None
        },
        VarType::Int | VarType::BitField => Some(
            ValueView::IntArray(Seq::new(n, |k: int| le_i32(b, o + 4 * k))),
        ),
        VarType::Float => Some(ValueView::FloatArray(Seq::new(n, |k: int| le_u32(b, o + 4 * k)))),
        VarType::Double => Some(
            ValueView::DoubleArray(Seq::new(n, |k: int| le_u64(b, o + 8 * k))),
        ),
    }
}

/// The value of `v` in the sample `b`: a scalar where its count is one, else an array.
pub open spec fn value_in(b: Seq<u8>, v: VarHeaderView) -> Option<ValueView> {
    if v.count == 1 {
        scalar_at(b, v.offset as int, v.var_type)
    } else {
        array_at(b, v.offset as int, v.var_type, v.count as nat)
    }
}

/// The named values of the sample `b`, in table order, skipping the variables that
/// do not fit in it.
pub open spec fn decode(b: Seq<u8>, vars: Seq<VarHeaderView>) -> Seq<(Seq<char>, ValueView)>
    decreases vars.len(),
{
    if vars.len() == 0 {
        Seq::empty()
    } else {
        let rest = decode(b, vars.drop_last());
        let v = vars.last();
        if fits(v, b.len() as int) && value_in(b, v) is Some {
            rest.push((v.name, value_in(b, v)->0))
        } else {
            rest
        }
    }
}

/// The bytes of sample `i` of the file `d`.
pub open spec fn sample_bytes(d: Seq<u8>, i: int) -> Seq<u8> {
    let bl = header_of(d).buf_len as int;
    d.subrange(base_of(d) + i * bl, base_of(d) + i * bl + bl)
}

/// Sample `i` of the file `d`.
pub open spec fn sample_of(d: Seq<u8>, i: int) -> Seq<(Seq<char>, ValueView)> {
    decode(sample_bytes(d, i), vars_of(d))
}

/// A value with the name of its variable.
#[derive(Debug, Clone)]
pub struct NamedValue {
    pub name: String,
    pub value: VarValue,
}

/// The values of one sample, in variable-table order.
#[derive(Debug, Clone)]
pub struct Sample {
    pub values: Vec<NamedValue>,
}

impl View for Sample {
    type V = Seq<(Seq<char>, ValueView)>;

    open spec fn view(&self) -> Seq<(Seq<char>, ValueView)> {
        self.values@.map_values(|e: NamedValue| (e.name@, e.value@))
    }
}

/// The value of the last entry named `name`, if any.
pub open spec fn lookup(s: Seq<(Seq<char>, ValueView)>, name: Seq<char>) -> Option<ValueView>
    decreases s.len(),
{
    if s.len() == 0 {
        None
    } else if s.last().0 == name {
        Some(s.last().1)
    } else {
        lookup(s.drop_last(), name)
    }
}

proof fn lemma_lookup_prefix(s: Seq<(Seq<char>, ValueView)>, name: Seq<char>, k: int)
    requires
        0 <= k <= s.len(),
        forall|j: int| k <= j < s.len() ==> (#[trigger] s[j]).0 != name,
    ensures
        lookup(s, name) == lookup(s.take(k), name),
    decreases s.len() - k,
{
    if k < s.len() {
        assert(s.drop_last().take(k) =~= s.take(k));
        lemma_lookup_prefix(s.drop_last(), name, k);
    } else {
        assert(s.take(k) =~= s);
    }
}

impl Sample {
    /// The value of the variable `name`; where a name repeats, the last one.
    pub fn get(&self, name: &str) -> (r: Option<&VarValue>)
        ensures
            r is None <==> lookup(self@, name@) is None,
            r is Some ==> lookup(self@, name@) == Some(r->0@),
    {
        let mut k: usize = self.values.len();
        while k > 0
            invariant
                k <= self.values@.len(),
                forall|j: int| k <= j < self@.len() ==> (#[trigger] self@[j]).0 != name@,
            decreases k,
        {
            let e = &self.values[k - 1];
            if crate::text::str_eq(e.name.as_str(), name) {
                proof {
                    lemma_lookup_prefix(self@, name@, k as int);
                    assert(self@.take(k as int).drop_last() =~= self@.take(k - 1));
                }
                return Some(&e.value);
            }
            k = k - 1;
        }
        proof {
            lemma_lookup_prefix(self@, name@, 0);
        }
        None
    }
}

proof fn lemma_mul_le(a: int, b: int, c: int)
    requires
        0 <= a <= b,
        0 <= c,
    ensures
        a * c <= b * c,
{
    assert(a * c <= b * c) by (nonlinear_arith)
        requires
            0 <= a <= b,
            0 <= c,
    ;
}

/// The scalar of type `var_type` at `offset`, where all of it lies inside `buf`.
pub fn read_scalar_value(buf: &[u8], offset: usize, var_type: VarType) -> (r: Option<VarValue>)
    ensures
        r is None <==> scalar_at(buf@, offset as int, var_type) is None,
        r is Some ==> scalar_at(buf@, offset as int, var_type) == Some(r->0@),
{
    let len = buf.len();
    let size = var_type.element_size();
    if offset > len || len - offset < size {
        return None;
    }
    let v = match var_type {
        VarType::Char => VarValue::Char(buf[offset]),
        VarType::Bool => VarValue::Bool(buf[offset] != 0),
        VarType::Int => VarValue::Int(read_i32(buf, offset)),
        VarType::BitField => VarValue::BitField(read_u32(buf, offset)),
        VarType::Float => VarValue::Float(read_u32(buf, offset)),
        VarType::Double => VarValue::Double(read_u64(buf, offset)),
    };
    Some(v)
}

proof fn lemma_fitting_step(len: int, o: int, size: int, i: nat)
    requires
        0 < size,
    ensures
        o + size * (i + 1) <= len ==> fitting(len, o, size, i + 1) == i + 1 && fitting(
            len,
            o,
            size,
            i,
        ) == i,
        o + size * (i + 1) > len ==> fitting(len, o, size, i + 1) == fitting(len, o, size, i),
{
    if o + size * (i + 1) <= len && i > 0 {
        assert(size * i <= size * (i + 1)) by (nonlinear_arith)
            requires
                0 < size,
        ;
    }
}

/// Of `count` signed 32-bit elements from `offset` on, those that lie inside `buf`.
fn read_elements_i32(buf: &[u8], offset: usize, count: usize) -> (r: Vec<i32>)
    ensures
        r@ == Seq::new(
            fitting(buf@.len() as int, offset as int, 4, count as nat),
            |k: int| le_i32(buf@, offset + 4 * k),
        ),
{
    let len = buf.len();
    let mut vals: Vec<i32> = Vec::new();
    let mut i: usize = 0;
    while i < count
        invariant
            i <= count,
            len == buf@.len(),
            vals@ =~= Seq::new(
                fitting(len as int, offset as int, 4, i as nat),
                |k: int| le_i32(buf@, offset + 4 * k),
            ),
        decreases count - i,
    {
        proof {
            lemma_fitting_step(len as int, offset as int, 4, i as nat);
        }
        if offset <= len && (len - offset) / 4 > i {
            vals.push(read_i32(buf, offset + 4 * i));
        }
        i = i + 1;
    }
    vals
}

/// Of `count` unsigned 32-bit elements from `offset` on, those that lie inside `buf`.
fn read_elements_u32(buf: &[u8], offset: usize, count: usize) -> (r: Vec<u32>)
    ensures
        r@ == Seq::new(
            fitting(buf@.len() as int, offset as int, 4, count as nat),
            |k: int| le_u32(buf@, offset + 4 * k),
        ),
{
    let len = buf.len();
    let mut vals: Vec<u32> = Vec::new();
    let mut i: usize = 0;
    while i < count
        invariant
            i <= count,
            len == buf@.len(),
            vals@ =~= Seq::new(
                fitting(len as int, offset as int, 4, i as nat),
                |k: int| le_u32(buf@, offset + 4 * k),
            ),
        decreases count - i,
    {
        proof {
            lemma_fitting_step(len as int, offset as int, 4, i as nat);
        }
        if offset <= len && (len - offset) / 4 > i {
            vals.push(read_u32(buf, offset + 4 * i));
        }
        i = i + 1;
    }
    vals
}

/// Of `count` unsigned 64-bit elements from `offset` on, those that lie inside `buf`.
fn read_elements_u64(buf: &[u8], offset: usize, count: usize) -> (r: Vec<u64>)
    ensures
        r@ == Seq::new(
            fitting(buf@.len() as int, offset as int, 8, count as nat),
            |k: int| le_u64(buf@, offset + 8 * k),
        ),
{
    let len = buf.len();
    let mut vals: Vec<u64> = Vec::new();
    let mut i: usize = 0;
    while i < count
        invariant
            i <= count,
            len == buf@.len(),
            vals@ =~= Seq::new(
                fitting(len as int, offset as int, 8, i as nat),
                |k: int| le_u64(buf@, offset + 8 * k),
            ),
        decreases count - i,
    {
        proof {
            lemma_fitting_step(len as int, offset as int, 8, i as nat);
        }
        if offset <= len && (len - offset) / 8 > i {
            vals.push(read_u64(buf, offset + 8 * i));
        }
        i = i + 1;
    }
    vals
}

/// The array of `count` elements of type `var_type` at `offset`: a character array
/// only where it lies whole inside `buf`; a numeric array of the elements that do.
pub fn read_array_value(buf: &[u8], offset: usize, var_type: VarType, count: usize) -> (r: Option<
    VarValue,
>)
    ensures
        r is None <==> array_at(buf@, offset as int, var_type, count as nat) is None,
        r is Some ==> array_at(buf@, offset as int, var_type, count as nat) == Some(r->0@),
{
    let len = buf.len();
    match var_type {
        VarType::Char | VarType::Bool => {
            if offset <= len && count <= len - offset {
                Some(VarValue::CharArray(slice_to_vec(slice_subrange(buf, offset, offset + count))))
            } else {
                None
            }
        },
        VarType::Int | VarType::BitField => Some(
            VarValue::IntArray(read_elements_i32(buf, offset, count)),
        ),
        VarType::Float => Some(VarValue::FloatArray(read_elements_u32(buf, offset, count))),
        VarType::Double => Some(VarValue::DoubleArray(read_elements_u64(buf, offset, count))),
    }
}

/// Whether `v` fits in a sample of `len` bytes.
fn var_fits(v: &VarHeader, len: usize) -> (r: bool)
    ensures
        r == fits(v@, len as int),
{
    if v.offset < 0 || v.count < 0 {
        return false;
    }
    let size = v.var_type.element_size() as u64;
    let c = v.count as u64;
    proof {
        lemma_mul_le(size as int, 8, c as int);
        assert(8 * c <= 8 * 0x8000_0000u64);
    }
    let span = c * size;
    (v.offset as u64) + span <= len as u64
}

/// Decodes the sample `buf`.
fn decode_sample(buf: &[u8], vars: &Vec<VarHeader>) -> (r: Sample)
    ensures
        r@ == decode(buf@, vars@.map_values(|v: VarHeader| v@)),
{
    let ghost vs = vars@.map_values(|v: VarHeader| v@);
    let len = buf.len();
    let mut values: Vec<NamedValue> = Vec::new();
    let mut k: usize = 0;
    while k < vars.len()
        invariant
            k <= vars@.len(),
            len == buf@.len(),
            vs == vars@.map_values(|v: VarHeader| v@),
            values@.map_values(|e: NamedValue| (e.name@, e.value@)) == decode(
                buf@,
                vs.take(k as int),
            ),
        decreases vars@.len() - k,
    {
        let v = &vars[k];
        proof {
            assert(vs.take(k + 1).drop_last() =~= vs.take(k as int));
            assert(vs.take(k + 1).last() == v@);
        }
        if var_fits(v, len) {
            let offset = v.offset as usize;
            let value = if v.count == 1 {
                read_scalar_value(buf, offset, v.var_type)
            } else {
                read_array_value(buf, offset, v.var_type, v.count as usize)
            };
            if let Some(value) = value {
                let name = v.name.clone();
                values.push(NamedValue { name, value });
                proof {
                    assert(values@.map_values(|e: NamedValue| (e.name@, e.value@)) =~= decode(
                        buf@,
                        vs.take(k as int),
                    ).push((v@.name, value_in(buf@, v@)->0)));
                }
            }
        }
        k = k + 1;
    }
    proof {
        assert(vs.take(vars@.len() as int) =~= vs);
    }
    Sample { values }
}

// ---------------------------------------------------------------------------
// The recording
// ---------------------------------------------------------------------------

/// A parsed recording: its bytes, decoded headers, variable table and session info.
pub struct IbtFile {
    data: Vec<u8>,
    header: IbtHeader,
    var_buf: VarBuf,
    disk_sub_header: DiskSubHeader,
    var_headers: Vec<VarHeader>,
    session_info_yaml: String,
    session_info: IbtSessionInfo,
}

impl View for IbtFile {
    type V = Seq<u8>;

    /// The file's bytes, from which every part of it is decoded.
    closed spec fn view(&self) -> Seq<u8> {
        self.data@
    }
}

impl IbtFile {
    /// The decoded parts agree with the bytes, and the bytes pass every check.
    pub closed spec fn wf(&self) -> bool {
        &&& file_error(self.data@) is None
        &&& self.header == header_of(self.data@)
        &&& self.var_buf == var_buf_of(self.data@)
        &&& self.disk_sub_header == disk_sub_header_of(self.data@)
        &&& self.var_headers@.map_values(|v: VarHeader| v@) == vars_of(self.data@)
        &&& self.session_info_yaml@ == yaml_of(self.data@)
        &&& self.session_info@ == session_info_of(yaml_of(self.data@))
    }

    /// Parses a recording from its bytes.
    pub fn from_bytes(data: Vec<u8>) -> (r: Result<IbtFile, IbtError>)
        ensures
            file_error(data@) is Some <==> r is Err,
            r is Err ==> r->Err_0 == file_error(data@)->0,
            r is Ok ==> r->Ok_0.wf() && r->Ok_0@ == data@,
    {
        let d = data.as_slice();
        let dl = d.len();
        let len = dl as u64;
        if d.len() < MIN_FILE_LEN {
            return Err(IbtError::TruncatedFile);
        }
        let header = match IbtHeader::read(d) {
            Ok(h) => h,
            Err(e) => return Err(e),
        };
        if header.ver != SUPPORTED_VERSION {
            return Err(IbtError::UnsupportedVersion);
        }
        if header.num_buf < 1 || header.num_buf > 4 {
            return Err(IbtError::MalformedHeader);
        }
        if header.num_vars < 0 || header.var_header_offset < 0 || header.var_header_offset as u64
            > len {
            return Err(IbtError::MalformedHeader);
        }
        let vho = header.var_header_offset as u64;
        let nv = header.num_vars as u64;
        if vho + 144 * nv > len {
            return Err(IbtError::TruncatedFile);
        }
        let mut var_headers: Vec<VarHeader> = Vec::new();
        let mut k: u64 = 0;
        while k < nv
            invariant
                k <= nv,
                d@ == data@,
                len == d@.len(),
                dl == d@.len(),
                dl >= MIN_FILE_LEN,
                header == header_of(d@),
                header.ver == SUPPORTED_VERSION,
                1 <= header.num_buf <= 4,
                header.num_vars >= 0,
                header.var_header_offset >= 0,
                header.var_header_offset <= len,
                vho == header.var_header_offset,
                nv == header.num_vars,
                vho + 144 * nv <= len,
                forall|j: int| 0 <= j < k ==> #[trigger] var_type_of(le_i32(d@, entry_offset(d@, j))) is Some,
                var_headers@.map_values(|v: VarHeader| v@) =~= vars_of(d@).take(k as int),
            decreases nv - k,
        {
            assert(vho + 144 * k + 144 <= len);
            let o = (vho + 144 * k) as usize;
            assert(o == entry_offset(d@, k as int));
            let var_type = match VarType::from_i32(read_i32(d, o)) {
                Ok(t) => t,
                Err(e) => {
                    proof {
                        assert(var_type_of(le_i32(d@, entry_offset(d@, k as int))) is None);
                        assert(!types_known(d@));
                    }
                    return Err(e);
                },
            };
            let vh = VarHeader {
                var_type,
                offset: read_i32(d, o + 4),
                count: read_i32(d, o + 8),
                count_as_time: d[o + 12] != 0,
                name: read_null_terminated_string(slice_subrange(d, o + 16, o + 48)),
                desc: read_null_terminated_string(slice_subrange(d, o + 48, o + 112)),
                unit: read_null_terminated_string(slice_subrange(d, o + 112, o + 144)),
            };
            assert(vh@ == var_header_at(d@, entry_offset(d@, k as int)));
            let ghost before = var_headers@;
            var_headers.push(vh);
            proof {
                assert(vars_of(d@)[k as int] == vh@);
                assert(var_headers@.map_values(|v: VarHeader| v@) =~= before.map_values(
                    |v: VarHeader| v@,
                ).push(vh@));
                assert(vars_of(d@).take(k + 1) =~= vars_of(d@).take(k as int).push(vh@));
            }
            k = k + 1;
        }
        assert(types_known(d@));
        assert(vars_of(d@).take(nv as int) =~= vars_of(d@));
        if header.session_info_len < 0 || header.session_info_offset < 0
            || header.session_info_offset as u64 > len {
            return Err(IbtError::MalformedHeader);
        }
        let so = header.session_info_offset as u64;
        let sl = header.session_info_len as u64;
        if so + sl > len {
            return Err(IbtError::TruncatedFile);
        }
        let var_buf = VarBuf { tick_count: read_i32(d, 48), buf_offset: read_i32(d, 52) };
        let disk_sub_header = DiskSubHeader {
            session_start_date: read_i64(d, 112),
            session_start_time_bits: read_u64(d, 120),
            session_end_time_bits: read_u64(d, 128),
            session_lap_count: read_i32(d, 136),
            session_record_count: read_i32(d, 140),
        };
        let rc = disk_sub_header.session_record_count;
        let bo = var_buf.buf_offset;
        if header.buf_len < 0 || rc < 0 || bo < 0 || bo as u64 > len {
            return Err(IbtError::MalformedHeader);
        }
        let bl = header.buf_len as u64;
        proof {
            lemma_mul_le(rc as int, 0x8000_0000, bl as int);
            lemma_mul_le(bl as int, 0x8000_0000, 0x8000_0000);
        }
        if bo as u64 + (rc as u64) * bl > len {
            return Err(IbtError::TruncatedFile);
        }
        let session_info_yaml = read_null_terminated_string(
            slice_subrange(d, so as usize, (so + sl) as usize),
        );
        let session_info = match IbtSessionInfo::from_yaml(session_info_yaml.as_str()) {
            Ok(info) => info,
            Err(_) => IbtSessionInfo::default(),
        };
        Ok(IbtFile {
            data,
            header,
            var_buf,
            disk_sub_header,
            var_headers,
            session_info_yaml,
            session_info,
        })
    }

    pub fn header(&self) -> (r: &IbtHeader)
        requires
            self.wf(),
        ensures
            *r == header_of(self@),
    {
        &self.header
    }

    pub fn var_buf(&self) -> (r: &VarBuf)
        requires
            self.wf(),
        ensures
            *r == var_buf_of(self@),
    {
        &self.var_buf
    }

    pub fn disk_sub_header(&self) -> (r: &DiskSubHeader)
        requires
            self.wf(),
        ensures
            *r == disk_sub_header_of(self@),
    {
        &self.disk_sub_header
    }

    /// The number of samples.
    pub fn record_count(&self) -> (r: usize)
        requires
            self.wf(),
        ensures
            r == record_count_of(self@),
    {
        self.disk_sub_header.session_record_count as usize
    }

    /// The native sample rate, in Hz.
    pub fn tick_rate(&self) -> (r: u32)
        requires
            self.wf(),
        ensures
            r == header_of(self@).tick_rate as u32,
    {
        self.header.tick_rate as u32
    }

    /// The embedded YAML text.
    pub fn session_info_yaml(&self) -> (r: &str)
        requires
            self.wf(),
        ensures
            r@ == yaml_of(self@),
    {
        self.session_info_yaml.as_str()
    }

    /// The facts read from the embedded YAML.
    pub fn session_info(&self) -> (r: &IbtSessionInfo)
        requires
            self.wf(),
        ensures
            r@ == session_info_of(yaml_of(self@)),
    {
        &self.session_info
    }

    /// The variable table.
    pub fn var_headers_ref(&self) -> (r: &[VarHeader])
        requires
            self.wf(),
        ensures
            r@.map_values(|v: VarHeader| v@) == vars_of(self@),
    {
        self.var_headers.as_slice()
    }

    /// The size of the file in bytes.
    pub fn file_size(&self) -> (r: u64)
        requires
            self.wf(),
        ensures
            r == self@.len(),
    {
        self.data.len() as u64
    }

    /// Sample `index`; an index at or past the number of samples is out of range.
    pub fn read_sample(&self, index: usize) -> (r: Result<Sample, IbtError>)
        requires
            self.wf(),
        ensures
            index >= record_count_of(self@) ==> r == Err::<Sample, IbtError>(IbtError::OutOfRange),
            index < record_count_of(self@) ==> r is Ok && r->Ok_0@ == sample_of(self@, index as int),
    {
        let rc = self.record_count();
        if index >= rc {
            return Err(IbtError::OutOfRange);
        }
        let bl = self.header.buf_len as usize;
        let base = self.var_buf.buf_offset as usize;
        // the file's length fits in usize, which bounds every offset below it
        let _len = self.data.len();
        proof {
            lemma_sample_in_file(self.data@, index as int);
        }
        let start = base + index * bl;
        let buf = slice_subrange(self.data.as_slice(), start, start + bl);
        Ok(decode_sample(buf, &self.var_headers))
    }

    /// Up to `count` samples from `start` on, decoded from one contiguous run of bytes;
    /// the run stops at the last sample. A start at or past the number of samples is out
    /// of range.
    pub fn read_samples_range(&self, start: usize, count: usize) -> (r: Result<
        Vec<Sample>,
        IbtError,
    >)
        requires
            self.wf(),
        ensures
            start >= record_count_of(self@) ==> r == Err::<Vec<Sample>, IbtError>(
                IbtError::OutOfRange,
            ),
            start < record_count_of(self@) ==> {
                &&& r is Ok
                &&& r->Ok_0@.len() == if start + count > record_count_of(self@) {
                    record_count_of(self@) - start
                } else {
                    count as int
                }
                &&& forall|k: int|
                    0 <= k < r->Ok_0@.len() ==> (#[trigger] r->Ok_0@[k])@ == sample_of(
                        self@,
                        start + k,
                    )
            },
    {
        let rc = self.record_count();
        if start >= rc {
            return Err(IbtError::OutOfRange);
        }
        let n = if count > rc - start {
            rc - start
        } else {
            count
        };
        let bl = self.header.buf_len as usize;
        let base = self.var_buf.buf_offset as usize;
        let d = self.data.as_slice();
        let mut out: Vec<Sample> = Vec::new();
        let mut k: usize = 0;
        while k < n
            invariant
                self.wf(),
                k <= n,
                start + n <= rc,
                rc == record_count_of(self@),
                d@ == self@,
                bl == header_of(self@).buf_len,
                base == base_of(self@),
                out@.len() == k,
                forall|j: int| 0 <= j < k ==> (#[trigger] out@[j])@ == sample_of(self@, start + j),
            decreases n - k,
        {
            let _len = d.len();
            proof {
                lemma_sample_in_file(self.data@, start + k);
            }
            let at = base + (start + k) * bl;
            let buf = slice_subrange(d, at, at + bl);
            out.push(decode_sample(buf, &self.var_headers));
            k = k + 1;
        }
        Ok(out)
    }
}

proof fn lemma_sample_in_file(d: Seq<u8>, i: int)
    requires
        file_error(d) is None,
        0 <= i < record_count_of(d),
    ensures
        0 <= i * header_of(d).buf_len,
        base_of(d) + i * header_of(d).buf_len + header_of(d).buf_len <= d.len(),
{
    let bl = header_of(d).buf_len as int;
    let rc = record_count_of(d);
    assert(0 <= i * bl && i * bl + bl <= rc * bl) by (nonlinear_arith)
        requires
            0 <= i < rc,
            0 <= bl,
    ;
}

/// Parsing the same bytes twice gives the same variable table, session info and samples.
pub proof fn lemma_parse_deterministic(a: &IbtFile, b: &IbtFile, i: int)
    requires
        a.wf(),
        b.wf(),
        a@ == b@,
    ensures
        vars_of(a@) == vars_of(b@),
        session_info_of(yaml_of(a@)) == session_info_of(yaml_of(b@)),
        record_count_of(a@) == record_count_of(b@),
        sample_of(a@, i) == sample_of(b@, i),
{
}

} // verus!
