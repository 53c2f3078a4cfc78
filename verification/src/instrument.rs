use vstd::prelude::*;

use crate::persist::name_bytes;

verus! {

broadcast use vstd::set::group_set_axioms;

/// The suffix that marks this facility's own frame on the call stack;
/// capture starts just after it.
pub open spec fn marker_bytes() -> Seq<u8> {
    name_bytes("::capture_backtrace"@)
}

/// `b` truncated at its last `::` separator, or empty when it has none:
/// how a raw symbol name is cleaned of its trailing hash segment.
pub open spec fn spec_clean(b: Seq<u8>) -> Seq<u8>
    decreases b.len(),
{
    if b.len() < 2 {
        Seq::empty()
    } else if b[b.len() - 2] == 58 && b[b.len() - 1] == 58 {
        b.take(b.len() - 2)
    } else {
        spec_clean(b.take(b.len() - 1))
    }
}

pub open spec fn spec_ends_with(b: Seq<u8>, suffix: Seq<u8>) -> bool {
    b.len() >= suffix.len() && b.skip(b.len() - suffix.len()) == suffix
}

/// Scanning phase: skip frames until one's cleaned name ends with the
/// capture marker, then collect; a frame with no symbol name aborts the
/// whole capture. Reaching the end without a marker collects nothing.
pub open spec fn spec_scan_from(names: Seq<Option<Seq<u8>>>, boundary: Seq<u8>, i: int) -> Option<
    Seq<Seq<u8>>,
>
    decreases names.len() - i,
{
    if i < 0 || i >= names.len() {
        Some(Seq::empty())
    } else {
        match names[i] {
            None => None,
            Some(n) => {
                let c = spec_clean(n);
                if spec_ends_with(c, marker_bytes()) {
                    spec_collect_from(names, boundary, i + 1)
                } else {
                    spec_scan_from(names, boundary, i + 1)
                }
            },
        }
    }
}

/// Collecting phase: every cleaned name up to and including the
/// designated boundary frame, aborting on a frame with no name.
pub open spec fn spec_collect_from(
    names: Seq<Option<Seq<u8>>>,
    boundary: Seq<u8>,
    i: int,
) -> Option<Seq<Seq<u8>>>
    decreases names.len() - i,
{
    if i < 0 || i >= names.len() {
        Some(Seq::empty())
    } else {
        match names[i] {
            None => None,
            Some(n) => {
                let c = spec_clean(n);
                if c == boundary {
                    Some(seq![c])
                } else {
                    match spec_collect_from(names, boundary, i + 1) {
                        Some(t) => Some(seq![c] + t),
                        None => None,
                    }
                }
            },
        }
    }
}

/// The call chain one capture records: the event label first, then the
/// collected frame names.
pub open spec fn spec_extract(
    event: Seq<u8>,
    names: Seq<Option<Seq<u8>>>,
    boundary: Seq<u8>,
) -> Option<Seq<Seq<u8>>> {
    match spec_scan_from(names, boundary, 0) {
        Some(t) => Some(seq![event] + t),
        None => None,
    }
}

/// Byte-wise equality of two byte strings.
pub fn bytes_eq(a: &Vec<u8>, b: &Vec<u8>) -> (r: bool)
    ensures
        r == (a@ == b@),
{
    if a.len() != b.len() {
        return false;
    }
    let mut i: usize = 0;
    while i < a.len()
        invariant
            0 <= i as int <= a@.len(),
            a@.len() == b@.len(),
            forall|k: int| 0 <= k < i as int ==> a@[k] == b@[k],
        decreases a@.len() - i as int,
    {
        if a[i] != b[i] {
            return false;
        }
        i = i + 1;
    }
    proof {
        assert(a@ =~= b@);
    }
    true
}

fn ends_with(b: &Vec<u8>, suffix: &Vec<u8>) -> (r: bool)
    ensures
        r == spec_ends_with(b@, suffix@),
{
    if b.len() < suffix.len() {
        return false;
    }
    let start = b.len() - suffix.len();
    let mut i: usize = 0;
    while i < suffix.len()
        invariant
            0 <= i as int <= suffix@.len(),
            start as int == b@.len() - suffix@.len(),
            b@.len() >= suffix@.len(),
            b@.len() <= usize::MAX,
            forall|k: int| 0 <= k < i as int ==> b@[start as int + k] == suffix@[k],
        decreases suffix@.len() - i as int,
    {
        if b[start + i] != suffix[i] {
            proof {
                let sk = b@.skip(b@.len() - suffix@.len());
                assert(sk[i as int] == b@[start as int + i as int]);
            }
            return false;
        }
        i = i + 1;
    }
    proof {
        assert(b@.skip(b@.len() - suffix@.len()) =~= suffix@);
    }
    true
}

/// Truncates a raw symbol name at its last `::` separator.
fn clean_symbol(name: &Vec<u8>) -> (r: Vec<u8>)
    ensures
        r@ == spec_clean(name@),
{
    let mut i: usize = name.len();
    proof {
        assert(name@.take(name@.len() as int) =~= name@);
    }
    while i >= 2
        invariant
            0 <= i as int <= name@.len(),
            spec_clean(name@) == spec_clean(name@.take(i as int)),
        decreases i,
    {
        if name[i - 2] == 58 && name[i - 1] == 58 {
            proof {
                let t = name@.take(i as int);
                assert(t[i - 2] == name@[i - 2] && t[i - 1] == name@[i - 1]);
                assert(spec_clean(t) == t.take(i - 2));
                assert(t.take(i - 2) =~= name@.take(i - 2));
            }
            let mut out: Vec<u8> = Vec::new();
            let mut k: usize = 0;
            while k < i - 2
                invariant
                    0 <= k as int <= i as int - 2 <= name@.len() - 2,
                    out@ =~= name@.take(i as int - 2).take(k as int),
                decreases i as int - 2 - k as int,
            {
                out.push(name[k]);
                proof {
                    let p = name@.take(i as int - 2);
                    assert(p.take(k as int + 1) =~= p.take(k as int).push(p[k as int]));
                }
                k = k + 1;
            }
            proof {
                assert(name@.take(i as int - 2).take(i as int - 2) =~= name@.take(i as int - 2));
            }
            return out;
        }
        proof {
            let t = name@.take(i as int);
            assert(t.take(i as int - 1) =~= name@.take(i as int - 1));
        }
        i = i - 1;
    }
    Vec::new()
}

fn marker_vec() -> (r: Vec<u8>)
    ensures
        r@ == marker_bytes(),
{
    let s: &str = "::capture_backtrace";
    let nb: &[u8] = s.as_bytes();
    let mut out: Vec<u8> = Vec::new();
    let mut j: usize = 0;
    while j < nb.len()
        invariant
            0 <= j as int <= nb@.len(),
            nb@ == marker_bytes(),
            out@ =~= nb@.take(j as int),
        decreases nb@.len() - j as int,
    {
        out.push(*vstd::slice::slice_index_get(nb, j));
        proof {
            assert(nb@.take(j as int + 1) =~= nb@.take(j as int).push(nb@[j as int]));
        }
        j = j + 1;
    }
    proof {
        assert(nb@.take(nb@.len() as int) =~= nb@);
    }
    out
}

/// Copies a string's UTF-8 bytes.
pub fn str_bytes(s: &str) -> (r: Vec<u8>)
    ensures
        r@ == name_bytes(s@),
{
    let nb: &[u8] = s.as_bytes();
    let mut out: Vec<u8> = Vec::new();
    let mut j: usize = 0;
    while j < nb.len()
        invariant
            0 <= j as int <= nb@.len(),
            nb@ == name_bytes(s@),
            out@ =~= nb@.take(j as int),
        decreases nb@.len() - j as int,
    {
        out.push(*vstd::slice::slice_index_get(nb, j));
        proof {
            assert(nb@.take(j as int + 1) =~= nb@.take(j as int).push(nb@[j as int]));
        }
        j = j + 1;
    }
    proof {
        assert(nb@.take(nb@.len() as int) =~= nb@);
    }
    out
}

/// Builds the chain one capture records from the raw frame names: walks
/// past this facility's own frame, then collects cleaned names up to
/// the boundary frame. `None` exactly when a scanned frame lacks a
/// symbol name.
/// Copies a byte string.
pub fn copy_bytes(v: &Vec<u8>) -> (r: Vec<u8>)
    ensures
        r@ == v@,
{
    let mut out: Vec<u8> = Vec::new();
    let mut j: usize = 0;
    while j < v.len()
        invariant
            0 <= j as int <= v@.len(),
            out@ =~= v@.take(j as int),
        decreases v@.len() - j as int,
    {
        out.push(v[j]);
        proof {
            assert(v@.take(j as int + 1) =~= v@.take(j as int).push(v@[j as int]));
        }
        j = j + 1;
    }
    proof {
        assert(v@.take(v@.len() as int) =~= v@);
    }
    out
}

pub fn extract_chain(event: &Vec<u8>, names: &Vec<Option<Vec<u8>>>, boundary: &Vec<u8>) -> (r:
    Option<Vec<Vec<u8>>>)
    ensures
        r is Some <==> spec_extract(event@, names.deep_view(), boundary@) is Some,
        r is Some ==> spec_extract(event@, names.deep_view(), boundary@) == Some(
            r->Some_0.deep_view(),
        ),
{
    let ghost dv = names.deep_view();
    let ghost bd = boundary@;
    proof {
        assert(dv.len() == names@.len());
    }
    let marker = marker_vec();
    let mut acc: Vec<Vec<u8>> = Vec::new();
    let ghost ev = event@;
    acc.push(copy_bytes(event));
    proof {
        assert(acc@[0].deep_view() =~= ev);
        assert(acc.deep_view() =~= seq![ev]);
    }
    let mut i: usize = 0;
    let mut found = false;
    while i < names.len() && !found
        invariant
            0 <= i as int <= names@.len(),
            dv == names.deep_view(),
            bd == boundary@,
            ev == event@,
            marker@ == marker_bytes(),
            acc.deep_view() =~= seq![ev],
            !found ==> spec_scan_from(dv, bd, 0) == spec_scan_from(dv, bd, i as int),
            found ==> spec_scan_from(dv, bd, 0) == spec_collect_from(dv, bd, i as int),
        decreases names@.len() - i as int,
    {
        proof {
            assert(dv[i as int] == names@[i as int].deep_view());
        }
        match &names[i] {
            None => {
                return None;
            },
            Some(n) => {
                proof {
                    assert(n.deep_view() =~= n@);
                    assert(dv[i as int] == Some(n.deep_view()));
                }
                let c = clean_symbol(n);
                if ends_with(&c, &marker) {
                    found = true;
                }
                i = i + 1;
            },
        }
    }
    if !found {
        proof {
            assert(spec_scan_from(dv, bd, i as int) == Some(Seq::<Seq<u8>>::empty()));
            assert(seq![ev] + Seq::<Seq<u8>>::empty() =~= seq![ev]);
        }
        return Some(acc);
    }
    let mut j: usize = i;
    proof {
        assert(acc.deep_view().skip(1) =~= Seq::<Seq<u8>>::empty());
        if spec_collect_from(dv, bd, i as int) is Some {
            let t = spec_collect_from(dv, bd, i as int)->Some_0;
            assert(acc.deep_view().skip(1) + t =~= t);
        }
    }
    while j < names.len()
        invariant
            0 <= j as int <= names@.len(),
            dv == names.deep_view(),
            bd == boundary@,
            ev == event@,
            acc.deep_view().len() >= 1,
            acc.deep_view()[0] == ev,
            spec_collect_from(dv, bd, j as int) matches Some(t) ==> spec_scan_from(dv, bd, 0)
                == Some(acc.deep_view().skip(1) + t),
            spec_collect_from(dv, bd, j as int) is None ==> spec_scan_from(dv, bd, 0) is None,
        decreases names@.len() - j as int,
    {
        proof {
            assert(dv[j as int] == names@[j as int].deep_view());
        }
        match &names[j] {
            None => {
                return None;
            },
            Some(n) => {
                proof {
                    assert(n.deep_view() =~= n@);
                    assert(dv[j as int] == Some(n.deep_view()));
                }
                let c = clean_symbol(n);
                let ghost pre = acc.deep_view();
                let hit = bytes_eq(&c, boundary);
                proof {
                    assert(c.deep_view() =~= c@);
                }
                acc.push(c);
                proof {
                    assert(acc.deep_view() =~= pre.push(spec_clean(n@)));
                    assert(acc.deep_view().skip(1) =~= pre.skip(1).push(spec_clean(n@)));
                    if hit {
                        assert(spec_collect_from(dv, bd, j as int) == Some(
                            seq![spec_clean(n@)],
                        ));
                        assert(pre.skip(1) + seq![spec_clean(n@)] =~= acc.deep_view().skip(1));
                        assert(seq![ev] + acc.deep_view().skip(1) =~= acc.deep_view());
                        assert(spec_scan_from(dv, bd, 0) == Some(acc.deep_view().skip(1)));
                        assert(spec_extract(ev, dv, bd) == Some(acc.deep_view()));
                    } else {
                        if spec_collect_from(dv, bd, j as int + 1) is Some {
                            let t = spec_collect_from(dv, bd, j as int + 1)->Some_0;
                            assert(pre.skip(1) + (seq![spec_clean(n@)] + t) =~= acc.deep_view()
                                .skip(1) + t);
                        }
                    }
                }
                if hit {
                    proof {
                        assert(dv == names.deep_view());
                        assert(bd == boundary@);
                        assert(ev == event@);
                        assert(spec_extract(ev, names.deep_view(), boundary@) == Some(
                            acc.deep_view(),
                        ));
                    }
                    return Some(acc);
                }
                j = j + 1;
            },
        }
    }
    proof {
        assert(spec_collect_from(dv, bd, j as int) == Some(Seq::<Seq<u8>>::empty()));
        assert(acc.deep_view().skip(1) + Seq::<Seq<u8>>::empty() =~= acc.deep_view().skip(1));
        assert(seq![ev] + acc.deep_view().skip(1) =~= acc.deep_view());
    }
    Some(acc)
}

/// The process-wide deduplicated collection of captured call chains.
/// Created once at process start, injected where needed, never
/// implicitly cleared; guarding it with a lock is its owner's business.
pub struct BacktraceSet {
    chains: Vec<Vec<Vec<u8>>>,
}

impl BacktraceSet {
    /// The chains in insertion order.
    pub closed spec fn spec_chains(self) -> Seq<Seq<Seq<u8>>> {
        self.chains.deep_view()
    }

    /// The chains as the set they deduplicate to.
    pub open spec fn spec_set(self) -> Set<Seq<Seq<u8>>> {
        self.spec_chains().to_set()
    }

    /// No chain is recorded twice.
    pub closed spec fn wf(self) -> bool {
        forall|a: int, b: int|
            0 <= a < b < self.spec_chains().len() ==> self.spec_chains()[a]
                != self.spec_chains()[b]
    }

    pub fn new() -> (r: BacktraceSet)
        ensures
            r.spec_chains() =~= Seq::<Seq<Seq<u8>>>::empty(),
            r.wf(),
    {
        BacktraceSet { chains: Vec::new() }
    }

    fn chain_eq(a: &Vec<Vec<u8>>, b: &Vec<Vec<u8>>) -> (r: bool)
        ensures
            r == (a.deep_view() == b.deep_view()),
    {
        if a.len() != b.len() {
            proof {
                assert(a.deep_view().len() == a@.len());
                assert(b.deep_view().len() == b@.len());
            }
            return false;
        }
        let mut i: usize = 0;
        while i < a.len()
            invariant
                0 <= i as int <= a@.len(),
                a@.len() == b@.len(),
                a.deep_view().len() == a@.len() && b.deep_view().len() == b@.len(),
                forall|k: int| 0 <= k < i as int ==> a.deep_view()[k] == b.deep_view()[k],
            decreases a@.len() - i as int,
        {
            proof {
                assert(a.deep_view()[i as int] == a@[i as int]@);
                assert(b.deep_view()[i as int] == b@[i as int]@);
            }
            if !bytes_eq(&a[i], &b[i]) {
                return false;
            }
            i = i + 1;
        }
        proof {
            assert(a.deep_view() =~= b.deep_view());
        }
        true
    }

    /// Whether an identical chain is already recorded.
    pub fn contains_chain(&self, c: &Vec<Vec<u8>>) -> (r: bool)
        ensures
            r == self.spec_set().contains(c.deep_view()),
    {
        let mut i: usize = 0;
        while i < self.chains.len()
            invariant
                0 <= i as int <= self.chains@.len(),
                self.spec_chains().len() == self.chains@.len(),
                forall|k: int| 0 <= k < i as int ==> self.spec_chains()[k] != c.deep_view(),
            decreases self.chains@.len() - i as int,
        {
            proof {
                assert(self.spec_chains()[i as int] == self.chains@[i as int].deep_view());
            }
            if BacktraceSet::chain_eq(&self.chains[i], c) {
                proof {
                    assert(self.spec_chains().contains(c.deep_view()));
                }
                return true;
            }
            i = i + 1;
        }
        proof {
            if self.spec_chains().contains(c.deep_view()) {
                let k = choose|k: int|
                    0 <= k < self.spec_chains().len() && self.spec_chains()[k] == c.deep_view();
                assert(false);
            }
        }
        false
    }

    /// Records a chain; recording an identical chain again changes
    /// nothing, so the collection stays a set.
    pub fn insert(&mut self, c: Vec<Vec<u8>>)
        requires
            old(self).wf(),
        ensures
            final(self).wf(),
            final(self).spec_set() =~= old(self).spec_set().insert(c.deep_view()),
            old(self).spec_set().contains(c.deep_view()) ==> final(self).spec_chains() == old(
                self,
            ).spec_chains(),
            !old(self).spec_set().contains(c.deep_view()) ==> final(self).spec_chains() == old(
                self,
            ).spec_chains().push(c.deep_view()),
    {
        let present = self.contains_chain(&c);
        if !present {
            let ghost pre = self.spec_chains();
            self.chains.push(c);
            proof {
                assert(self.spec_chains() =~= pre.push(c.deep_view()));
                assert forall|y: Seq<Seq<u8>>| #[trigger]
                    self.spec_set().contains(y) == pre.to_set().insert(c.deep_view()).contains(
                        y,
                    ) by {
                    if self.spec_chains().contains(y) {
                        let k = choose|k: int|
                            0 <= k < self.spec_chains().len() && self.spec_chains()[k] == y;
                        if k < pre.len() {
                            assert(pre.contains(y));
                        }
                    }
                    if pre.contains(y) {
                        let k = choose|k: int| 0 <= k < pre.len() && pre[k] == y;
                        assert(self.spec_chains()[k] == y);
                        assert(self.spec_chains().contains(y));
                    }
                    if y == c.deep_view() {
                        assert(self.spec_chains()[pre.len() as int] == y);
                        assert(self.spec_chains().contains(y));
                    }
                }
                assert(self.spec_set() =~= pre.to_set().insert(c.deep_view()));
            }
        } else {
            proof {
                assert(self.spec_set() =~= self.spec_set().insert(c.deep_view()));
            }
        }
    }
}

/// How one byte appears inside a JSON string: the two delimiters are
/// escaped, an unprintable byte is replaced, everything else stands as
/// itself.
pub open spec fn esc_byte(b: u8) -> Seq<u8> {
    if b == 34 || b == 92 {
        seq![92u8, b]
    } else if b < 32 {
        seq![63u8]
    } else {
        seq![b]
    }
}

pub open spec fn esc_from(s: Seq<u8>, i: int) -> Seq<u8>
    decreases s.len() - i,
{
    if i < 0 || i >= s.len() {
        Seq::empty()
    } else {
        esc_byte(s[i]) + esc_from(s, i + 1)
    }
}

pub open spec fn json_string(s: Seq<u8>) -> Seq<u8> {
    seq![34u8] + esc_from(s, 0) + seq![34u8]
}

pub open spec fn json_strings_from(c: Seq<Seq<u8>>, i: int) -> Seq<u8>
    decreases c.len() - i,
{
    if i < 0 || i >= c.len() {
        Seq::empty()
    } else if i == c.len() - 1 {
        json_string(c[i])
    } else {
        json_string(c[i]) + seq![44u8] + json_strings_from(c, i + 1)
    }
}

pub open spec fn json_chain(c: Seq<Seq<u8>>) -> Seq<u8> {
    seq![91u8] + json_strings_from(c, 0) + seq![93u8]
}

pub open spec fn json_chains_from(cs: Seq<Seq<Seq<u8>>>, i: int) -> Seq<u8>
    decreases cs.len() - i,
{
    if i < 0 || i >= cs.len() {
        Seq::empty()
    } else if i == cs.len() - 1 {
        json_chain(cs[i])
    } else {
        json_chain(cs[i]) + seq![44u8] + json_chains_from(cs, i + 1)
    }
}

/// The whole collection as one JSON array of arrays of strings, in
/// insertion order.
pub open spec fn spec_backtraces_json(cs: Seq<Seq<Seq<u8>>>) -> Seq<u8> {
    seq![91u8] + json_chains_from(cs, 0) + seq![93u8]
}

fn push_json_string(out: &mut Vec<u8>, s: &Vec<u8>)
    ensures
        final(out)@ =~= old(out)@ + json_string(s@),
{
    out.push(34u8);
    let ghost mid = out@;
    let mut i: usize = 0;
    while i < s.len()
        invariant
            0 <= i as int <= s@.len(),
            out@ + esc_from(s@, i as int) =~= mid + esc_from(s@, 0),
        decreases s@.len() - i as int,
    {
        let ghost pre = out@;
        let b = s[i];
        if b == 34 || b == 92 {
            out.push(92u8);
            out.push(b);
        } else if b < 32 {
            out.push(63u8);
        } else {
            out.push(b);
        }
        proof {
            assert(out@ =~= pre + esc_byte(s@[i as int]));
            assert(out@ + esc_from(s@, i as int + 1) =~= pre + esc_from(s@, i as int));
        }
        i = i + 1;
    }
    out.push(34u8);
    proof {
        assert(esc_from(s@, s@.len() as int) =~= Seq::<u8>::empty());
        assert(out@ =~= old(out)@ + json_string(s@));
    }
}

fn push_json_chain(out: &mut Vec<u8>, c: &Vec<Vec<u8>>)
    ensures
        final(out)@ =~= old(out)@ + json_chain(c.deep_view()),
{
    let ghost dv = c.deep_view();
    proof {
        assert(dv.len() == c@.len());
    }
    out.push(91u8);
    let ghost mid = out@;
    let mut i: usize = 0;
    while i < c.len()
        invariant
            0 <= i as int <= c@.len(),
            dv == c.deep_view(),
            dv.len() == c@.len(),
            out@ + json_strings_from(dv, i as int) =~= mid + json_strings_from(dv, 0),
        decreases c@.len() - i as int,
    {
        let ghost pre = out@;
        proof {
            assert(dv[i as int] == c@[i as int].deep_view());
            assert(c@[i as int].deep_view() =~= c@[i as int]@);
        }
        push_json_string(out, &c[i]);
        if i + 1 < c.len() {
            out.push(44u8);
            proof {
                assert(out@ =~= pre + json_string(dv[i as int]) + seq![44u8]);
                assert(out@ + json_strings_from(dv, i as int + 1) =~= pre + json_strings_from(
                    dv,
                    i as int,
                ));
            }
        } else {
            proof {
                assert(json_strings_from(dv, i as int + 1) =~= Seq::<u8>::empty());
                assert(out@ + json_strings_from(dv, i as int + 1) =~= pre + json_strings_from(
                    dv,
                    i as int,
                ));
            }
        }
        i = i + 1;
    }
    out.push(93u8);
    proof {
        assert(json_strings_from(dv, dv.len() as int) =~= Seq::<u8>::empty());
        assert(out@ =~= old(out)@ + json_chain(dv));
    }
}

/// Serializes the whole deduplicated collection to JSON; its owner
/// writes the bytes wherever the diagnostics should land.
pub fn backtraces_json(set: &BacktraceSet) -> (r: Vec<u8>)
    ensures
        r@ == spec_backtraces_json(set.spec_chains()),
{
    let ghost dv = set.spec_chains();
    let mut out: Vec<u8> = Vec::new();
    out.push(91u8);
    let ghost mid = out@;
    let mut i: usize = 0;
    while i < set.chains.len()
        invariant
            0 <= i as int <= set.chains@.len(),
            dv == set.spec_chains(),
            dv.len() == set.chains@.len(),
            out@ + json_chains_from(dv, i as int) =~= mid + json_chains_from(dv, 0),
        decreases set.chains@.len() - i as int,
    {
        let ghost pre = out@;
        proof {
            assert(dv[i as int] == set.chains@[i as int].deep_view());
        }
        push_json_chain(&mut out, &set.chains[i]);
        if i + 1 < set.chains.len() {
            out.push(44u8);
            proof {
                assert(out@ + json_chains_from(dv, i as int + 1) =~= pre + json_chains_from(
                    dv,
                    i as int,
                ));
            }
        } else {
            proof {
                assert(json_chains_from(dv, i as int + 1) =~= Seq::<u8>::empty());
                assert(out@ + json_chains_from(dv, i as int + 1) =~= pre + json_chains_from(
                    dv,
                    i as int,
                ));
            }
        }
        i = i + 1;
    }
    out.push(93u8);
    proof {
        assert(json_chains_from(dv, dv.len() as int) =~= Seq::<u8>::empty());
        assert(out@ =~= spec_backtraces_json(dv));
    }
    out
}

/// Recording the same chain twice leaves exactly one entry: inserting
/// an element already in the set changes neither the set nor the
/// recorded count.
pub proof fn lemma_capture_dedup(s: Set<Seq<Seq<u8>>>, c: Seq<Seq<u8>>)
    ensures
        s.insert(c).insert(c) =~= s.insert(c),
        s.contains(c) ==> s.insert(c) =~= s,
{
}

/// Relies on backtrace::Backtrace::new and BacktraceFrame::symbols:
/// each frame of the current call stack mapped to its first symbol's
/// rendered name, as bytes; nothing is promised of the result, which
/// depends on the call stack itself.
#[verifier::external_body]
fn current_frame_names() -> (r: Vec<Option<Vec<u8>>>)
{
    let bt = backtrace::Backtrace::new();
    bt.frames()
        .iter()
        .map(|f| {
            f.symbols()
                .first()
                .and_then(|s| s.name())
                .map(|n| format!("{}", n).into_bytes())
        })
        .collect()
}

/// Captures the current call chain, tagged with `event`, into the
/// deduplicated set: a no-op when an identical chain is already there,
/// or when a stack frame cannot be named. Intended for offline
/// diagnostics, never for the per-frame path.
pub fn capture_backtrace(set: &mut BacktraceSet, event: &str, boundary: &str)
    requires
        old(set).wf(),
    ensures
        final(set).wf(),
        final(set).spec_chains().len() <= old(set).spec_chains().len() + 1,
        (final(set).spec_set() =~= old(set).spec_set()) || (exists|c: Seq<Seq<u8>>|
            c.len() >= 1 && c[0] == name_bytes(event@) && final(set).spec_set() =~= old(
                set,
            ).spec_set().insert(c)),
{
    let names = current_frame_names();
    let ev = str_bytes(event);
    let bd = str_bytes(boundary);
    match extract_chain(&ev, &names, &bd) {
        Some(chain) => {
            proof {
                assert(chain.deep_view()[0] == ev@);
            }
            set.insert(chain);
        },
        None => {},
    }
}

} // verus!
