use vstd::prelude::*;

use crate::canvas::{MAX_CAM, MAX_ZOOM};
use crate::world::World;

verus! {

broadcast use vstd::utf8::is_ascii_chars_encode_utf8, vstd::utf8::encode_utf8_decode_utf8;

/// The camera state persisted across sessions: written at shutdown,
/// read once at startup, applied only when `map_name` matches the
/// active map. Stored on disk as one JSON object.
pub struct EditorState {
    pub map_name: String,
    pub cam_x: i64,
    pub cam_y: i64,
    pub cam_zoom: i64,
}

/// The characters a persistable map name may hold: printable ASCII
/// without the two JSON string delimiters.
pub open spec fn name_char_ok(c: char) -> bool {
    ' ' <= c <= '~' && c != '"' && c != '\\'
}

/// The bytes such characters encode to.
pub open spec fn name_byte_ok(b: u8) -> bool {
    32 <= b <= 126 && b != 34 && b != 92
}

impl EditorState {
    /// Whether the stored transform lies inside the range a camera can
    /// hold; anything outside is treated as incompatible state.
    pub open spec fn spec_cam_compatible(self) -> bool {
        &&& -MAX_CAM <= self.cam_x <= MAX_CAM
        &&& -MAX_CAM <= self.cam_y <= MAX_CAM
        &&& 0 <= self.cam_zoom <= MAX_ZOOM
    }

    /// Whether startup applies this stored state at all: the name names
    /// the active map and the transform is compatible.
    pub open spec fn spec_applies_to(self, w: World) -> bool {
        self.map_name@ == w.map_name@ && self.spec_cam_compatible()
    }

    /// What the persistence format can represent exactly.
    pub open spec fn spec_wf(self) -> bool {
        &&& self.spec_cam_compatible()
        &&& forall|i: int|
            0 <= i < self.map_name@.len() ==> name_char_ok(#[trigger] self.map_name@[i])
    }
}

/// The decimal digits of `n`, most significant first.
pub open spec fn dec_digits(n: nat) -> Seq<u8>
    decreases n,
{
    if n < 10 {
        seq![(48 + n) as u8]
    } else {
        dec_digits(n / 10).push((48 + n % 10) as u8)
    }
}

/// The canonical decimal spelling of `v`.
pub open spec fn dec_int(v: int) -> Seq<u8> {
    if v < 0 {
        seq![45u8] + dec_digits((-v) as nat)
    } else {
        dec_digits(v as nat)
    }
}

pub open spec fn is_digit(b: u8) -> bool {
    48 <= b <= 57
}

// The fixed punctuation of the persisted object, as bytes:
// `{"map_name":"`, then `","cam_x":`, `,"cam_y":`, `,"cam_zoom":`, `}`.
pub open spec fn lit_head() -> Seq<u8> {
    seq![123u8, 34u8, 109u8, 97u8, 112u8, 95u8, 110u8, 97u8, 109u8, 101u8, 34u8, 58u8, 34u8]
}

pub open spec fn lit_x() -> Seq<u8> {
    seq![44u8, 34u8, 99u8, 97u8, 109u8, 95u8, 120u8, 34u8, 58u8]
}

pub open spec fn lit_y() -> Seq<u8> {
    seq![44u8, 34u8, 99u8, 97u8, 109u8, 95u8, 121u8, 34u8, 58u8]
}

pub open spec fn lit_z() -> Seq<u8> {
    seq![44u8, 34u8, 99u8, 97u8, 109u8, 95u8, 122u8, 111u8, 111u8, 109u8, 34u8, 58u8]
}

/// The UTF-8 bytes of a name.
pub open spec fn name_bytes(s: Seq<char>) -> Seq<u8> {
    vstd::utf8::encode_utf8(s)
}

/// The exact bytes `encode_editor_state` owes for a well-formed state.
pub open spec fn spec_encode(st: EditorState) -> Seq<u8> {
    lit_head() + name_bytes(st.map_name@) + seq![34u8] + lit_x() + dec_int(st.cam_x as int)
        + lit_y() + dec_int(st.cam_y as int) + lit_z() + dec_int(st.cam_zoom as int) + seq![125u8]
}

fn push_lit_head(out: &mut Vec<u8>)
    ensures
        final(out)@ =~= old(out)@ + lit_head(),
{
    out.push(123u8);
    out.push(34u8);
    out.push(109u8);
    out.push(97u8);
    out.push(112u8);
    out.push(95u8);
    out.push(110u8);
    out.push(97u8);
    out.push(109u8);
    out.push(101u8);
    out.push(34u8);
    out.push(58u8);
    out.push(34u8);
}

fn push_lit_x(out: &mut Vec<u8>)
    ensures
        final(out)@ =~= old(out)@ + lit_x(),
{
    out.push(44u8);
    out.push(34u8);
    out.push(99u8);
    out.push(97u8);
    out.push(109u8);
    out.push(95u8);
    out.push(120u8);
    out.push(34u8);
    out.push(58u8);
}

fn push_lit_y(out: &mut Vec<u8>)
    ensures
        final(out)@ =~= old(out)@ + lit_y(),
{
    out.push(44u8);
    out.push(34u8);
    out.push(99u8);
    out.push(97u8);
    out.push(109u8);
    out.push(95u8);
    out.push(121u8);
    out.push(34u8);
    out.push(58u8);
}

fn push_lit_z(out: &mut Vec<u8>)
    ensures
        final(out)@ =~= old(out)@ + lit_z(),
{
    out.push(44u8);
    out.push(34u8);
    out.push(99u8);
    out.push(97u8);
    out.push(109u8);
    out.push(95u8);
    out.push(122u8);
    out.push(111u8);
    out.push(111u8);
    out.push(109u8);
    out.push(34u8);
    out.push(58u8);
}

/// Appends the decimal digits of `n`.
fn push_dec_u64(out: &mut Vec<u8>, n: u64)
    ensures
        final(out)@ =~= old(out)@ + dec_digits(n as nat),
    decreases n,
{
    if n < 10 {
        out.push(48u8 + n as u8);
    } else {
        push_dec_u64(out, n / 10);
        out.push(48u8 + (n % 10) as u8);
        proof {
            assert(out@ =~= old(out)@ + dec_digits((n / 10) as nat).push(
                (48 + n as nat % 10) as u8,
            ));
        }
    }
}

/// Appends the canonical decimal spelling of `v`.
fn push_dec_i64(out: &mut Vec<u8>, v: i64)
    requires
        v > i64::MIN,
    ensures
        final(out)@ =~= old(out)@ + dec_int(v as int),
{
    if v < 0 {
        out.push(45u8);
        push_dec_u64(out, (-v) as u64);
        proof {
            assert(out@ =~= old(out)@ + (seq![45u8] + dec_digits((-(v as int)) as nat)));
        }
    } else {
        push_dec_u64(out, v as u64);
    }
}

/// Appends the UTF-8 bytes of an ASCII-safe name.
fn push_name_bytes(out: &mut Vec<u8>, s: &String)
    requires
        forall|i: int| 0 <= i < s@.len() ==> name_char_ok(#[trigger] s@[i]),
    ensures
        final(out)@ =~= old(out)@ + name_bytes(s@),
{
    proof {
        assert(vstd::utf8::is_ascii_chars(s@));
    }
    let nb: &[u8] = s.as_str().as_bytes();
    let mut j: usize = 0;
    while j < nb.len()
        invariant
            0 <= j as int <= nb@.len(),
            nb@ == name_bytes(s@),
            out@ =~= old(out)@ + nb@.take(j as int),
        decreases nb@.len() - j as int,
    {
        let b = *vstd::slice::slice_index_get(nb, j);
        out.push(b);
        proof {
            assert(nb@.take(j as int + 1) =~= nb@.take(j as int).push(nb@[j as int]));
        }
        j = j + 1;
    }
    proof {
        assert(nb@.take(nb@.len() as int) =~= nb@);
    }
}

/// Serializes a well-formed editor state to its JSON object, the exact
/// bytes `spec_encode` names.
pub fn encode_editor_state(st: &EditorState) -> (r: Vec<u8>)
    requires
        st.spec_wf(),
    ensures
        r@ == spec_encode(*st),
{
    let mut out: Vec<u8> = Vec::new();
    push_lit_head(&mut out);
    push_name_bytes(&mut out, &st.map_name);
    out.push(34u8);
    push_lit_x(&mut out);
    push_dec_i64(&mut out, st.cam_x);
    push_lit_y(&mut out);
    push_dec_i64(&mut out, st.cam_y);
    push_lit_z(&mut out);
    push_dec_i64(&mut out, st.cam_zoom);
    out.push(125u8);
    proof {
        assert(out@ =~= spec_encode(*st));
    }
    out
}

/// `Some(j)` when `lit` occurs in `b` at `i`, with `j` just past it.
pub open spec fn spec_expect(b: Seq<u8>, i: int, lit: Seq<u8>) -> Option<int> {
    if 0 <= i && i + lit.len() <= b.len() && b.subrange(i, i + lit.len()) == lit {
        Some(i + lit.len())
    } else {
        None
    }
}

/// The name bytes from `i` up to a closing quote, which is consumed;
/// `None` on a byte no name may hold or on running out of input.
pub open spec fn spec_scan_name(b: Seq<u8>, i: int) -> Option<(Seq<u8>, int)>
    decreases b.len() - i,
{
    if i < 0 || i >= b.len() {
        None
    } else if b[i] == 34 {
        Some((Seq::empty(), i + 1))
    } else if name_byte_ok(b[i]) {
        match spec_scan_name(b, i + 1) {
            Some(p) => Some((seq![b[i]] + p.0, p.1)),
            None => None,
        }
    } else {
        None
    }
}

pub open spec fn spec_prepend(p: Seq<u8>, o: Option<(Seq<u8>, int)>) -> Option<(Seq<u8>, int)> {
    match o {
        Some(q) => Some((p + q.0, q.1)),
        None => None,
    }
}

/// The maximal run of decimal digits starting at `i`, and where it ends.
pub open spec fn spec_scan_digits(b: Seq<u8>, i: int) -> (Seq<u8>, int)
    decreases b.len() - i,
{
    if 0 <= i < b.len() && is_digit(b[i]) {
        let p = spec_scan_digits(b, i + 1);
        (seq![b[i]] + p.0, p.1)
    } else {
        (Seq::empty(), i)
    }
}

/// The value of a digit string, most significant digit first.
pub open spec fn dec_val(ds: Seq<u8>) -> int
    decreases ds.len(),
{
    if ds.len() == 0 {
        0
    } else {
        dec_val(ds.drop_last()) * 10 + (ds.last() - 48)
    }
}

pub open spec fn pow10(n: nat) -> int
    decreases n,
{
    if n == 0 {
        1
    } else {
        10 * pow10((n - 1) as nat)
    }
}

/// A canonically spelled integer at `i`: an optional minus, then at most
/// eighteen digits without a leading zero, and no `-0`.
pub open spec fn spec_scan_int(b: Seq<u8>, i: int) -> Option<(int, int)> {
    let neg = 0 <= i < b.len() && b[i] == 45;
    let j = if neg {
        i + 1
    } else {
        i
    };
    let p = spec_scan_digits(b, j);
    if p.0.len() == 0 || p.0.len() > 18 {
        None
    } else if p.0.len() > 1 && p.0[0] == 48 {
        None
    } else if neg && p.0 =~= seq![48u8] {
        None
    } else {
        Some((if neg { -dec_val(p.0) } else { dec_val(p.0) }, p.1))
    }
}

/// What a byte string parses to: the name bytes and the three camera
/// numbers, exactly when the whole input is one canonical encoding.
pub open spec fn spec_parse(b: Seq<u8>) -> Option<(Seq<u8>, int, int, int)> {
    match spec_expect(b, 0, lit_head()) {
        None => None,
        Some(j0) => match spec_scan_name(b, j0) {
            None => None,
            Some(np) => match spec_expect(b, np.1, lit_x()) {
                None => None,
                Some(j2) => match spec_scan_int(b, j2) {
                    None => None,
                    Some(xp) => match spec_expect(b, xp.1, lit_y()) {
                        None => None,
                        Some(j4) => match spec_scan_int(b, j4) {
                            None => None,
                            Some(yp) => match spec_expect(b, yp.1, lit_z()) {
                                None => None,
                                Some(j6) => match spec_scan_int(b, j6) {
                                    None => None,
                                    Some(zp) => match spec_expect(b, zp.1, seq![125u8]) {
                                        None => None,
                                        Some(j8) => if j8 == b.len() {
                                            Some((np.0, xp.0, yp.0, zp.0))
                                        } else {
                                            None
                                        },
                                    },
                                },
                            },
                        },
                    },
                },
            },
        },
    }
}

fn lit_head_vec() -> (r: Vec<u8>)
    ensures
        r@ == lit_head(),
{
    let mut v: Vec<u8> = Vec::new();
    push_lit_head(&mut v);
    proof {
        assert(v@ =~= lit_head());
    }
    v
}

fn lit_x_vec() -> (r: Vec<u8>)
    ensures
        r@ == lit_x(),
{
    let mut v: Vec<u8> = Vec::new();
    push_lit_x(&mut v);
    proof {
        assert(v@ =~= lit_x());
    }
    v
}

fn lit_y_vec() -> (r: Vec<u8>)
    ensures
        r@ == lit_y(),
{
    let mut v: Vec<u8> = Vec::new();
    push_lit_y(&mut v);
    proof {
        assert(v@ =~= lit_y());
    }
    v
}

fn lit_z_vec() -> (r: Vec<u8>)
    ensures
        r@ == lit_z(),
{
    let mut v: Vec<u8> = Vec::new();
    push_lit_z(&mut v);
    proof {
        assert(v@ =~= lit_z());
    }
    v
}

fn expect_lit(b: &Vec<u8>, i: usize, lit: &Vec<u8>) -> (r: Option<usize>)
    ensures
        r is Some <==> spec_expect(b@, i as int, lit@) is Some,
        r matches Some(j) ==> Some(j as int) == spec_expect(b@, i as int, lit@),
{
    if i > b.len() || lit.len() > b.len() - i {
        return None;
    }
    let mut k: usize = 0;
    while k < lit.len()
        invariant
            0 <= k as int <= lit@.len(),
            i as int + lit@.len() <= b@.len(),
            b@.len() <= usize::MAX,
            forall|t: int| 0 <= t < k as int ==> b@[i as int + t] == lit@[t],
        decreases lit@.len() - k as int,
    {
        let m = i + k;
        if b[m] != lit[k] {
            proof {
                let sub = b@.subrange(i as int, i as int + lit@.len());
                assert(sub[k as int] == b@[i as int + k as int]);
                assert(sub != lit@);
            }
            return None;
        }
        k = k + 1;
    }
    proof {
        assert(b@.subrange(i as int, i as int + lit@.len()) =~= lit@);
    }
    Some(i + lit.len())
}

fn scan_name(b: &Vec<u8>, i: usize) -> (r: Option<(Vec<u8>, usize)>)
    ensures
        r is Some <==> spec_scan_name(b@, i as int) is Some,
        r matches Some(p) ==> spec_scan_name(b@, i as int) == Some((p.0@, p.1 as int)),
        r matches Some(p) ==> forall|k: int| 0 <= k < p.0@.len() ==> name_byte_ok(#[trigger] p.0@[k]),
{
    let mut acc: Vec<u8> = Vec::new();
    let mut j: usize = i;
    proof {
        if spec_scan_name(b@, i as int) is Some {
            let p = spec_scan_name(b@, i as int)->Some_0;
            assert(Seq::<u8>::empty() + p.0 =~= p.0);
        }
    }
    while j < b.len()
        invariant
            i as int <= j as int,
            spec_scan_name(b@, i as int) == spec_prepend(acc@, spec_scan_name(b@, j as int)),
            forall|k: int| 0 <= k < acc@.len() ==> name_byte_ok(#[trigger] acc@[k]),
        decreases b@.len() - j as int,
    {
        let c = b[j];
        if c == 34 {
            proof {
                assert(acc@ + Seq::<u8>::empty() =~= acc@);
            }
            return Some((acc, j + 1));
        }
        if !(c >= 32 && c <= 126 && c != 92) {
            return None;
        }
        let ghost pre = acc@;
        acc.push(c);
        proof {
            if spec_scan_name(b@, j as int + 1) is Some {
                let p = spec_scan_name(b@, j as int + 1)->Some_0;
                assert(pre + (seq![c] + p.0) =~= acc@ + p.0);
            }
        }
        j = j + 1;
    }
    None
}

fn scan_int(b: &Vec<u8>, i: usize) -> (r: Option<(i64, usize)>)
    ensures
        r is Some <==> spec_scan_int(b@, i as int) is Some,
        r matches Some(p) ==> spec_scan_int(b@, i as int) == Some((p.0 as int, p.1 as int)),
{
    let mut j: usize = i;
    let mut neg = false;
    if j < b.len() && b[j] == 45 {
        neg = true;
        j = j + 1;
    }
    let ghost j0: int = j as int;
    let mut ds: Vec<u8> = Vec::new();
    proof {
        assert(Seq::<u8>::empty() + spec_scan_digits(b@, j0).0 =~= spec_scan_digits(b@, j0).0);
    }
    while j < b.len() && b[j] >= 48 && b[j] <= 57
        invariant
            j0 <= j as int,
            spec_scan_digits(b@, j0).0 == ds@ + spec_scan_digits(b@, j as int).0,
            spec_scan_digits(b@, j0).1 == spec_scan_digits(b@, j as int).1,
            forall|k: int| 0 <= k < ds@.len() ==> is_digit(#[trigger] ds@[k]),
        decreases b@.len() - j as int,
    {
        let ghost pre = ds@;
        ds.push(b[j]);
        proof {
            let p = spec_scan_digits(b@, j as int + 1);
            assert(pre + (seq![b@[j as int]] + p.0) =~= ds@ + p.0);
        }
        j = j + 1;
    }
    proof {
        assert(spec_scan_digits(b@, j as int).0 =~= Seq::<u8>::empty());
        assert(ds@ + Seq::<u8>::empty() =~= ds@);
        assert(spec_scan_digits(b@, j0).0 == ds@);
        assert(spec_scan_digits(b@, j0).1 == j as int);
    }
    if ds.len() == 0 || ds.len() > 18 {
        return None;
    }
    if ds.len() > 1 && ds[0] == 48 {
        return None;
    }
    if neg && ds.len() == 1 && ds[0] == 48 {
        proof {
            assert(ds@ =~= seq![48u8]);
        }
        return None;
    }
    proof {
        if ds@.len() == 1 && !(ds@ =~= seq![48u8]) {
            assert(ds@[0] != 48);
        }
        reveal_with_fuel(pow10, 20);
        lemma_pow10_mono(ds@.len() as nat, 18);
    }
    let mut v: i64 = 0;
    let mut t: usize = 0;
    while t < ds.len()
        invariant
            0 <= t as int <= ds@.len() <= 18,
            forall|k: int| 0 <= k < ds@.len() ==> is_digit(#[trigger] ds@[k]),
            0 <= v as int && (v as int) < pow10(t as nat),
            v as int == dec_val(ds@.take(t as int)),
        decreases ds@.len() - t as int,
    {
        proof {
            lemma_pow10_mono(t as nat, 17);
            reveal_with_fuel(pow10, 20);
            assert(ds@.take(t as int + 1).drop_last() =~= ds@.take(t as int));
            assert(ds@.take(t as int + 1).last() == ds@[t as int]);
        }
        let d = ds[t];
        v = v * 10 + (d - 48) as i64;
        t = t + 1;
    }
    proof {
        assert(ds@.take(ds@.len() as int) =~= ds@);
    }
    if neg {
        Some((-v, j))
    } else {
        Some((v, j))
    }
}

proof fn lemma_pow10_mono(a: nat, b: nat)
    requires
        a <= b,
    ensures
        0 < pow10(a) <= pow10(b),
    decreases b,
{
    if b > 0 {
        if a == b {
            lemma_pow10_mono((a - 1) as nat, (b - 1) as nat);
        } else {
            lemma_pow10_mono(a, (b - 1) as nat);
        }
    }
}

/// Relies on `String::from_utf8`: ASCII bytes decode to the string with
/// exactly those bytes, one character per byte, with matching codes.
#[verifier::external_body]
fn string_from_ascii(v: Vec<u8>) -> (r: String)
    requires
        forall|i: int| 0 <= i < v@.len() ==> v@[i] < 128,
    ensures
        r@.len() == v@.len(),
        forall|i: int| 0 <= i < v@.len() ==> (#[trigger] r@[i]) as u32 == v@[i] as u32,
        name_bytes(r@) == v@,
{
    String::from_utf8(v).unwrap()
}

/// Parses the persisted JSON object. Returns `Some` exactly when the
/// whole input is one canonical encoding, and then returns the state it
/// encodes.
pub fn parse_editor_state(bytes: &Vec<u8>) -> (r: Option<EditorState>)
    ensures
        r is Some <==> spec_parse(bytes@) is Some,
        r matches Some(st) ==> ({
            let t = spec_parse(bytes@)->Some_0;
            &&& name_bytes(st.map_name@) == t.0
            &&& st.map_name@.len() == t.0.len()
            &&& (forall|k: int|
                0 <= k < t.0.len() ==> (#[trigger] st.map_name@[k]) as u32 == t.0[k] as u32)
            &&& st.cam_x as int == t.1
            &&& st.cam_y as int == t.2
            &&& st.cam_zoom as int == t.3
        }),
{
    let lh = lit_head_vec();
    let lx = lit_x_vec();
    let ly = lit_y_vec();
    let lz = lit_z_vec();
    let j0 = match expect_lit(bytes, 0, &lh) {
        Some(j) => j,
        None => {
            return None;
        },
    };
    let np = match scan_name(bytes, j0) {
        Some(p) => p,
        None => {
            return None;
        },
    };
    let j2 = match expect_lit(bytes, np.1, &lx) {
        Some(j) => j,
        None => {
            return None;
        },
    };
    let xp = match scan_int(bytes, j2) {
        Some(p) => p,
        None => {
            return None;
        },
    };
    let j4 = match expect_lit(bytes, xp.1, &ly) {
        Some(j) => j,
        None => {
            return None;
        },
    };
    let yp = match scan_int(bytes, j4) {
        Some(p) => p,
        None => {
            return None;
        },
    };
    let j6 = match expect_lit(bytes, yp.1, &lz) {
        Some(j) => j,
        None => {
            return None;
        },
    };
    let zp = match scan_int(bytes, j6) {
        Some(p) => p,
        None => {
            return None;
        },
    };
    if !(zp.1 < bytes.len() && bytes[zp.1] == 125 && zp.1 + 1 == bytes.len()) {
        proof {
            if zp.1 as int + 1 <= bytes@.len() && bytes@[zp.1 as int] == 125 {
                assert(bytes@.subrange(zp.1 as int, zp.1 as int + 1) =~= seq![125u8]);
            } else if zp.1 as int + 1 <= bytes@.len() {
                assert(bytes@.subrange(zp.1 as int, zp.1 as int + 1)[0] == bytes@[zp.1 as int]);
            }
        }
        return None;
    }
    proof {
        assert(bytes@.subrange(zp.1 as int, zp.1 as int + 1) =~= seq![125u8]);
    }
    let name = string_from_ascii(np.0);
    Some(EditorState { map_name: name, cam_x: xp.0, cam_y: yp.0, cam_zoom: zp.0 })
}

proof fn lemma_dec_digits_props(n: nat)
    ensures
        dec_digits(n).len() >= 1,
        forall|k: int| 0 <= k < dec_digits(n).len() ==> is_digit(#[trigger] dec_digits(n)[k]),
        n > 0 ==> dec_digits(n)[0] != 48,
    decreases n,
{
    if n >= 10 {
        lemma_dec_digits_props(n / 10);
    }
}

proof fn lemma_dec_digits_len(n: nat, k: nat)
    requires
        k >= 1,
        n < pow10(k),
    ensures
        dec_digits(n).len() <= k,
    decreases n,
{
    if n >= 10 {
        assert(pow10(k) == 10 * pow10((k - 1) as nat));
        assert(pow10((k - 1) as nat) > 0) by {
            lemma_pow10_mono(0, (k - 1) as nat);
        }
        assert(n / 10 < pow10((k - 1) as nat)) by {
            if n / 10 >= pow10((k - 1) as nat) {
                assert(10 * (n / 10) >= 10 * pow10((k - 1) as nat)) by (nonlinear_arith)
                    requires
                        n / 10 >= pow10((k - 1) as nat),
                ;
                assert(n >= 10 * (n / 10));
            }
        }
        assert(k - 1 >= 1) by {
            if k == 1 {
                assert(pow10(1int as nat) == 10);
            }
        }
        lemma_dec_digits_len(n / 10, (k - 1) as nat);
    }
}

proof fn lemma_dec_val_of_digits(n: nat)
    ensures
        dec_val(dec_digits(n)) == n,
    decreases n,
{
    if n < 10 {
        let ds = dec_digits(n);
        assert(ds == seq![(48 + n) as u8]);
        assert(ds.len() == 1);
        assert(ds.drop_last() =~= Seq::<u8>::empty());
        assert(dec_val(Seq::<u8>::empty()) == 0);
        assert(ds.last() == (48 + n) as u8);
        assert((48 + n) as u8 == 48 + n);
        assert(dec_val(ds) == dec_val(ds.drop_last()) * 10 + (ds.last() - 48));
    } else {
        lemma_dec_val_of_digits(n / 10);
        let ds = dec_digits(n);
        assert(ds.drop_last() =~= dec_digits(n / 10));
        assert(ds.last() == (48 + n % 10) as u8);
        assert((48 + n % 10) as u8 == 48 + n % 10);
        vstd::arithmetic::div_mod::lemma_fundamental_div_mod(n as int, 10);
    }
}

proof fn lemma_scan_digits_at(b: Seq<u8>, i: int, ds: Seq<u8>)
    requires
        0 <= i,
        i + ds.len() <= b.len(),
        b.subrange(i, i + ds.len()) == ds,
        forall|k: int| 0 <= k < ds.len() ==> is_digit(#[trigger] ds[k]),
        i + ds.len() == b.len() || !is_digit(b[i + ds.len()]),
    ensures
        spec_scan_digits(b, i) == (ds, i + ds.len()),
    decreases ds.len(),
{
    if ds.len() == 0 {
    } else {
        assert(b[i] == ds[0]);
        assert(b.subrange(i + 1, i + 1 + (ds.len() - 1)) =~= ds.drop_first());
        lemma_scan_digits_at(b, i + 1, ds.drop_first());
        assert(seq![b[i]] + ds.drop_first() =~= ds);
    }
}

proof fn lemma_scan_int_at(b: Seq<u8>, i: int, v: int)
    requires
        0 <= i,
        -pow10(18) < v < pow10(18),
        i + dec_int(v).len() <= b.len(),
        b.subrange(i, i + dec_int(v).len()) == dec_int(v),
        i + dec_int(v).len() == b.len() || !is_digit(b[i + dec_int(v).len()]),
    ensures
        spec_scan_int(b, i) == Some((v, i + dec_int(v).len())),
{
    if v < 0 {
        let m = (-v) as nat;
        lemma_dec_digits_props(m);
        lemma_dec_digits_len(m, 18);
        assert(dec_int(v) == seq![45u8] + dec_digits(m));
        assert(b.subrange(i, i + dec_int(v).len())[0] == b[i]);
        assert(dec_int(v)[0] == 45);
        assert(b[i] == 45);
        assert forall|k: int|
            0 <= k < dec_digits(m).len() implies b.subrange(
            i + 1,
            i + 1 + dec_digits(m).len(),
        )[k] == dec_digits(m)[k] by {
            assert(b.subrange(i, i + dec_int(v).len())[k + 1] == b[i + 1 + k]);
            assert(dec_int(v)[k + 1] == dec_digits(m)[k]);
        }
        assert(b.subrange(i + 1, i + 1 + dec_digits(m).len()) =~= dec_digits(m));
        lemma_scan_digits_at(b, i + 1, dec_digits(m));
        lemma_dec_val_of_digits(m);
        assert(!(dec_digits(m) =~= seq![48u8]));
    } else {
        let m = v as nat;
        lemma_dec_digits_props(m);
        lemma_dec_digits_len(m, 18);
        assert(b[i] == dec_digits(m)[0]);
        assert(!(b[i] == 45));
        lemma_scan_digits_at(b, i, dec_digits(m));
        lemma_dec_val_of_digits(m);
        if dec_digits(m).len() > 1 {
            assert(m > 0) by {
                if m < 10 {
                }
            }
        }
    }
}

proof fn lemma_scan_name_at(b: Seq<u8>, i: int, name: Seq<u8>)
    requires
        0 <= i,
        i + name.len() + 1 <= b.len(),
        b.subrange(i, i + name.len()) == name,
        forall|k: int| 0 <= k < name.len() ==> name_byte_ok(#[trigger] name[k]),
        b[i + name.len()] == 34,
    ensures
        spec_scan_name(b, i) == Some((name, i + name.len() + 1)),
    decreases name.len(),
{
    if name.len() == 0 {
        assert(b[i] == 34);
    } else {
        assert(b[i] == name[0]);
        assert(b.subrange(i + 1, i + 1 + (name.len() - 1)) =~= name.drop_first());
        lemma_scan_name_at(b, i + 1, name.drop_first());
        assert(seq![b[i]] + name.drop_first() =~= name);
    }
}

/// The round-trip law of the persistence format: parsing the encoding
/// of any representable editor state yields exactly that state's name
/// bytes and camera numbers — saving then loading with the same map
/// name reproduces the identical camera transform.
#[verifier::rlimit(100)]
pub proof fn lemma_editor_state_round_trip(st: EditorState)
    requires
        st.spec_wf(),
    ensures
        spec_parse(spec_encode(st)) matches Some(t) && t.0 == name_bytes(st.map_name@) && t.1
            == st.cam_x as int && t.2 == st.cam_y as int && t.3 == st.cam_zoom as int,
{
    reveal_with_fuel(pow10, 20);
    assert(vstd::utf8::is_ascii_chars(st.map_name@));
    let nb = name_bytes(st.map_name@);
    assert forall|k: int| 0 <= k < nb.len() implies name_byte_ok(#[trigger] nb[k]) by {
        let c = st.map_name@[k];
        assert(name_char_ok(c));
        assert(nb[k] == c as u8);
        vstd::utf8::char_is_scalar(c);
        vstd::utf8::char_u32_cast(c, c as u32);
        vstd::utf8::char_u32_cast('"', '"' as u32);
        vstd::utf8::char_u32_cast('\\', '\\' as u32);
        assert(c as u32 <= 126);
        assert(c as u8 == c as u32);
        if nb[k] == 34 {
            assert(c as u32 == 34);
            assert(c == '"');
        }
        if nb[k] == 92 {
            assert(c as u32 == 92);
            assert(c == '\\');
        }
    }
    let b = spec_encode(st);
    let dx = dec_int(st.cam_x as int);
    let dy = dec_int(st.cam_y as int);
    let dz = dec_int(st.cam_zoom as int);
    let o1: int = 13;
    let o2 = o1 + nb.len();
    let o3 = o2 + 1;
    let o4 = o3 + 9;
    let o5 = o4 + dx.len();
    let o6 = o5 + 9;
    let o7 = o6 + dy.len();
    let o8 = o7 + 12;
    let o9 = o8 + dz.len();
    assert(b.len() == o9 + 1);
    assert(b.subrange(0, o1) =~= lit_head());
    assert(b.subrange(o1, o2) =~= nb);
    assert(b[o2] == 34);
    assert(b.subrange(o3, o4) =~= lit_x());
    assert(b.subrange(o4, o5) =~= dx);
    assert(b.subrange(o5, o6) =~= lit_y());
    assert(b.subrange(o6, o7) =~= dy);
    assert(b.subrange(o7, o8) =~= lit_z());
    assert(b.subrange(o8, o9) =~= dz);
    assert(b.subrange(o9, o9 + 1) =~= seq![125u8]);
    assert(spec_expect(b, 0, lit_head()) == Some(o1));
    lemma_scan_name_at(b, o1, nb);
    assert(spec_scan_name(b, o1) == Some((nb, o3)));
    assert(spec_expect(b, o3, lit_x()) == Some(o4));
    assert(b[o5] == 44 && !is_digit(b[o5]));
    lemma_scan_int_at(b, o4, st.cam_x as int);
    assert(spec_expect(b, o5, lit_y()) == Some(o6));
    assert(b[o7] == 44 && !is_digit(b[o7]));
    lemma_scan_int_at(b, o6, st.cam_y as int);
    assert(spec_expect(b, o7, lit_z()) == Some(o8));
    assert(b[o9] == 125 && !is_digit(b[o9]));
    lemma_scan_int_at(b, o8, st.cam_zoom as int);
    assert(spec_expect(b, o9, seq![125u8]) == Some(o9 + 1));
}

} // verus!

