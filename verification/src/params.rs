//! Parameter sets and their canonical query-string encoding.
//!
//! A `ParameterSet` maps parameter names to values. Entries are kept sorted
//! by key in strict lexicographic byte order, so the encoding — pairs joined
//! by `&`, key and value joined by `=` — is deterministic and reproducible,
//! which the request signature depends on. Absent optional parameters are
//! simply never inserted, so they never appear in the encoding.

use vstd::prelude::*;
use crate::encoding::{
    dec_digits, percent_encoded, rendered_decimal, percent_encode, render_decimal, u64_digits,
    push_bytes, Decimal,
};

verus! {

/// Strict lexicographic order on byte strings: a proper prefix comes first,
/// otherwise the first differing byte decides.
pub open spec fn lex_lt(a: Seq<u8>, b: Seq<u8>) -> bool
    decreases a.len(),
{
    if b.len() == 0 {
        false
    } else if a.len() == 0 {
        true
    } else if a[0] < b[0] {
        true
    } else if a[0] > b[0] {
        false
    } else {
        lex_lt(a.drop_first(), b.drop_first())
    }
}

/// Lexicographic order is transitive.
pub proof fn lemma_lex_lt_trans(a: Seq<u8>, b: Seq<u8>, c: Seq<u8>)
    requires
        lex_lt(a, b),
        lex_lt(b, c),
    ensures
        lex_lt(a, c),
    decreases a.len(),
{
    if a.len() == 0 || c.len() == 0 || b.len() == 0 {
    } else if a[0] < b[0] {
        if b[0] < c[0] {
        } else {
        }
    } else if a[0] == b[0] {
        if b[0] < c[0] {
        } else {
            lemma_lex_lt_trans(a.drop_first(), b.drop_first(), c.drop_first());
        }
    }
}

fn lex_cmp(a: &[u8], b: &[u8]) -> (r: i8)
    ensures
        r == -1i8 || r == 0i8 || r == 1i8,
        r == -1i8 <==> lex_lt(a@, b@),
        r == 1i8 <==> lex_lt(b@, a@),
        r == 0i8 <==> a@ == b@,
{
    let n = if a.len() < b.len() {
        a.len()
    } else {
        b.len()
    };
    let mut i: usize = 0;
    while i < n
        invariant
            i <= n,
            n == if a@.len() < b@.len() {
                a@.len()
            } else {
                b@.len()
            },
            forall|j: int| 0 <= j < i ==> a@[j] == b@[j],
        decreases n - i,
    {
        if a[i] < b[i] {
            proof {
                lemma_lex_from_diff(a@, b@, i as int);
                lemma_lex_asym(a@, b@);
            }
            return -1;
        }
        if a[i] > b[i] {
            proof {
                lemma_lex_from_diff(b@, a@, i as int);
                lemma_lex_asym(b@, a@);
            }
            return 1;
        }
        i = i + 1;
    }
    if a.len() < b.len() {
        proof {
            lemma_lex_from_prefix(a@, b@);
            lemma_lex_asym(a@, b@);
        }
        -1
    } else if a.len() > b.len() {
        proof {
            lemma_lex_from_prefix(b@, a@);
            lemma_lex_asym(b@, a@);
        }
        1
    } else {
        proof {
            assert(a@ =~= b@);
            lemma_lex_irrefl(a@);
        }
        0
    }
}

proof fn lemma_lex_asym(a: Seq<u8>, b: Seq<u8>)
    requires
        lex_lt(a, b),
    ensures
        !lex_lt(b, a),
    decreases a.len(),
{
    if a.len() > 0 && b.len() > 0 && a[0] == b[0] {
        lemma_lex_asym(a.drop_first(), b.drop_first());
    }
}

proof fn lemma_lex_irrefl(a: Seq<u8>)
    ensures
        !lex_lt(a, a),
    decreases a.len(),
{
    if a.len() > 0 {
        lemma_lex_irrefl(a.drop_first());
    }
}

proof fn lemma_lex_from_diff(a: Seq<u8>, b: Seq<u8>, i: int)
    requires
        0 <= i < a.len(),
        i < b.len(),
        forall|j: int| 0 <= j < i ==> a[j] == b[j],
        a[i] < b[i],
    ensures
        lex_lt(a, b),
    decreases i,
{
    if i > 0 {
        assert(a[0] == b[0]);
        assert forall|j: int| 0 <= j < i - 1 implies a.drop_first()[j] == b.drop_first()[j] by {
            assert(a[j + 1] == b[j + 1]);
        }
        lemma_lex_from_diff(a.drop_first(), b.drop_first(), i - 1);
    }
}

proof fn lemma_lex_from_prefix(a: Seq<u8>, b: Seq<u8>)
    requires
        a.len() < b.len(),
        forall|j: int| 0 <= j < a.len() ==> a[j] == b[j],
    ensures
        lex_lt(a, b),
    decreases a.len(),
{
    if a.len() > 0 {
        assert forall|j: int| 0 <= j < a.drop_first().len() implies a.drop_first()[j]
            == b.drop_first()[j] by {
            assert(a[j + 1] == b[j + 1]);
        }
        lemma_lex_from_prefix(a.drop_first(), b.drop_first());
    }
}

/// The value of one parameter. Optional parameters that are absent are never
/// inserted into a `ParameterSet` at all, so nothing encodes them.
///
/// Booleans carry their casing convention with them (`TRUE`/`FALSE` versus
/// `true`/`false`), since the exchange expects different conventions for
/// different parameters.
pub enum ParamValue {
    /// Free text; percent-encoded on output.
    Text(Vec<u8>),
    /// An unsigned integer; decimal digits on output.
    Unsigned(u64),
    /// A fixed-point decimal number.
    Number(Decimal),
    /// A boolean; `TRUE`/`FALSE` when `upper` holds, else `true`/`false`.
    Flag { value: bool, upper: bool },
}

/// The exact bytes a value contributes to the query string.
pub open spec fn rendered_value(v: ParamValue) -> Seq<u8> {
    match v {
        ParamValue::Text(t) => percent_encoded(t@),
        ParamValue::Unsigned(n) => dec_digits(n as nat),
        ParamValue::Number(d) => rendered_decimal(d),
        ParamValue::Flag { value, upper } => if value && upper {
            seq![0x54u8, 0x52u8, 0x55u8, 0x45u8]  // TRUE
        } else if !value && upper {
            seq![0x46u8, 0x41u8, 0x4cu8, 0x53u8, 0x45u8]  // FALSE
        } else if value {
            seq![0x74u8, 0x72u8, 0x75u8, 0x65u8]  // true
        } else {
            seq![0x66u8, 0x61u8, 0x6cu8, 0x73u8, 0x65u8]  // false
        },
    }
}

/// Render a parameter value as the bytes it contributes to the query string.
pub fn render_value(v: &ParamValue) -> (r: Vec<u8>)
    ensures
        r@ == rendered_value(*v),
{
    match v {
        ParamValue::Text(t) => percent_encode(t.as_slice()),
        ParamValue::Unsigned(n) => u64_digits(*n),
        ParamValue::Number(d) => render_decimal(d),
        ParamValue::Flag { value, upper } => {
            let mut out: Vec<u8> = Vec::new();
            if *value && *upper {
                out.push(0x54);
                out.push(0x52);
                out.push(0x55);
                out.push(0x45);
            } else if !*value && *upper {
                out.push(0x46);
                out.push(0x41);
                out.push(0x4c);
                out.push(0x53);
                out.push(0x45);
            } else if *value {
                out.push(0x74);
                out.push(0x72);
                out.push(0x75);
                out.push(0x65);
            } else {
                out.push(0x66);
                out.push(0x61);
                out.push(0x6c);
                out.push(0x73);
                out.push(0x65);
            }
            proof {
                assert(out@ =~= rendered_value(*v));
            }
            out
        },
    }
}

/// One named parameter.
pub struct Param {
    pub key: Vec<u8>,
    pub value: ParamValue,
}

/// A set of named parameters, kept sorted by key in strict lexicographic
/// byte order. Its view is the sequence of (key, rendered value) pairs.
pub struct ParameterSet {
    pub entries: Vec<Param>,
}

impl View for ParameterSet {
    type V = Seq<(Seq<u8>, Seq<u8>)>;

    open spec fn view(&self) -> Seq<(Seq<u8>, Seq<u8>)> {
        self.entries@.map_values(|p: Param| (p.key@, rendered_value(p.value)))
    }
}

/// A pair sequence whose keys are strictly increasing.
pub open spec fn pairs_sorted(ps: Seq<(Seq<u8>, Seq<u8>)>) -> bool {
    forall|i: int| 0 <= i && i + 1 < ps.len() ==> #[trigger] lex_lt(ps[i].0, ps[i + 1].0)
}

/// Where a new pair lands among sorted pairs: entries with smaller keys stay
/// ahead of it, an entry with the same key is replaced, the rest follow.
pub open spec fn spec_insert_pair(
    ps: Seq<(Seq<u8>, Seq<u8>)>,
    k: Seq<u8>,
    r: Seq<u8>,
) -> Seq<(Seq<u8>, Seq<u8>)>
    decreases ps.len(),
{
    if ps.len() == 0 {
        seq![(k, r)]
    } else if lex_lt(ps[0].0, k) {
        seq![ps[0]] + spec_insert_pair(ps.drop_first(), k, r)
    } else if ps[0].0 == k {
        seq![(k, r)] + ps.drop_first()
    } else {
        seq![(k, r)] + ps
    }
}

impl ParameterSet {
    /// The set holds an entry under this key.
    pub open spec fn has_key(&self, k: Seq<u8>) -> bool {
        exists|i: int| 0 <= i < self@.len() && self@[i].0 == k
    }

    /// Well-formed: keys strictly increasing, so each key occurs once and
    /// the encoding order is fully determined.
    pub open spec fn wf(&self) -> bool {
        pairs_sorted(self@)
    }

    /// An empty parameter set.
    pub fn new() -> (r: ParameterSet)
        ensures
            r.wf(),
            r@ == Seq::<(Seq<u8>, Seq<u8>)>::empty(),
    {
        let r = ParameterSet { entries: Vec::new() };
        proof {
            assert(r@ =~= Seq::<(Seq<u8>, Seq<u8>)>::empty());
        }
        r
    }

    /// Insert a parameter, keeping the entries sorted; an entry already
    /// present under the same key is replaced.
    pub fn insert(&mut self, key: Vec<u8>, value: ParamValue)
        requires
            old(self).wf(),
        ensures
            final(self).wf(),
            final(self)@ == spec_insert_pair(old(self)@, key@, rendered_value(value)),
            final(self).has_key(key@),
    {
        let ghost orig = self@;
        let ghost k = key@;
        let ghost r = rendered_value(value);
        proof {
            assert(orig.subrange(0, 0) =~= Seq::<(Seq<u8>, Seq<u8>)>::empty());
            assert(orig.subrange(0, orig.len() as int) =~= orig);
        }
        let mut i: usize = 0;
        let mut replace = false;
        loop
            invariant_except_break
                replace == false,
            invariant
                self == old(self),
                i <= orig.len(),
                orig == self@,
                k == key@,
                r == rendered_value(value),
                forall|j: int| 0 <= j < i ==> #[trigger] lex_lt(orig[j].0, k),
                spec_insert_pair(orig, k, r) == orig.subrange(0, i as int) + spec_insert_pair(
                    orig.subrange(i as int, orig.len() as int),
                    k,
                    r,
                ),
            ensures
                self == old(self),
                i <= orig.len(),
                orig == self@,
                k == key@,
                r == rendered_value(value),
                forall|j: int| 0 <= j < i ==> #[trigger] lex_lt(orig[j].0, k),
                spec_insert_pair(orig, k, r) == orig.subrange(0, i as int) + spec_insert_pair(
                    orig.subrange(i as int, orig.len() as int),
                    k,
                    r,
                ),
                replace ==> i < orig.len() && orig[i as int].0 == k,
                !replace && i < orig.len() ==> lex_lt(k, orig[i as int].0) && orig[i as int].0
                    != k,
            decreases orig.len() - i,
        {
            if i >= self.entries.len() {
                break ;
            }
            proof {
                assert(orig[i as int] == (self.entries@[i as int].key@, rendered_value(
                    self.entries@[i as int].value,
                )));
            }
            let entry_key = self.entries[i].key.as_slice();
            proof {
                assert(entry_key@ == self.entries@[i as int].key@);
            }
            let c = lex_cmp(entry_key, key.as_slice());
            if c == 0 {
                replace = true;
                break ;
            }
            if c == 1 {
                proof {
                    lemma_lex_irrefl(k);
                }
                break ;
            }
            proof {
                assert(lex_lt(orig[i as int].0, k));
                let rest = orig.subrange(i as int, orig.len() as int);
                assert(rest[0] == orig[i as int]);
                assert(rest.drop_first() =~= orig.subrange(i + 1, orig.len() as int));
                assert(spec_insert_pair(rest, k, r) == seq![rest[0]] + spec_insert_pair(
                    rest.drop_first(),
                    k,
                    r,
                ));
                assert(orig.subrange(0, i as int) + seq![orig[i as int]] =~= orig.subrange(
                    0,
                    i + 1,
                ));
                assert(orig.subrange(0, i as int) + (seq![rest[0]] + spec_insert_pair(
                    rest.drop_first(),
                    k,
                    r,
                )) =~= orig.subrange(0, i + 1) + spec_insert_pair(
                    orig.subrange(i + 1, orig.len() as int),
                    k,
                    r,
                ));
            }
            i = i + 1;
        }
        let p = Param { key, value };
        if replace {
            self.entries.remove(i);
            self.entries.insert(i, p);
            proof {
                let rest = orig.subrange(i as int, orig.len() as int);
                assert(rest[0] == orig[i as int]);
                assert(rest[0].0 == k);
                assert(!lex_lt(rest[0].0, k)) by {
                    lemma_lex_irrefl(k);
                }
                assert(spec_insert_pair(rest, k, r) == seq![(k, r)] + rest.drop_first());
                assert(rest.drop_first() =~= orig.subrange(i + 1, orig.len() as int));
                assert(self@ =~= orig.subrange(0, i as int) + (seq![(k, r)] + orig.subrange(
                    i + 1,
                    orig.len() as int,
                )));
                assert(self@ == spec_insert_pair(orig, k, r));
                assert forall|j: int| 0 <= j && j + 1 < self@.len() implies #[trigger] lex_lt(
                    self@[j].0,
                    self@[j + 1].0,
                ) by {
                    assert(orig[j].0 == self@[j].0 || (j == i && self@[j].0 == k));
                    assert(orig[j + 1].0 == self@[j + 1].0 || (j + 1 == i && self@[j + 1].0 == k));
                }
                assert(self@[i as int].0 == k);
            }
        } else {
            self.entries.insert(i, p);
            proof {
                if i < orig.len() {
                    let rest = orig.subrange(i as int, orig.len() as int);
                    assert(rest[0] == orig[i as int]);
                    assert(lex_lt(k, orig[i as int].0));
                    lemma_lex_asym(k, orig[i as int].0);
                    assert(!lex_lt(rest[0].0, k));
                    assert(rest[0].0 != k);
                    assert(spec_insert_pair(rest, k, r) == seq![(k, r)] + rest);
                    assert(self@ =~= orig.subrange(0, i as int) + (seq![(k, r)] + rest));
                    assert(lex_lt(k, orig[i as int].0));
                } else {
                    let rest = orig.subrange(i as int, orig.len() as int);
                    assert(rest =~= Seq::<(Seq<u8>, Seq<u8>)>::empty());
                    assert(spec_insert_pair(rest, k, r) == seq![(k, r)]);
                    assert(self@ =~= orig.subrange(0, i as int) + seq![(k, r)]);
                }
                assert(self@ == spec_insert_pair(orig, k, r));
                assert forall|j: int| 0 <= j && j + 1 < self@.len() implies #[trigger] lex_lt(
                    self@[j].0,
                    self@[j + 1].0,
                ) by {
                    if j + 1 < i {
                        assert(self@[j] == orig[j]);
                        assert(self@[j + 1] == orig[j + 1]);
                        assert(lex_lt(orig[j].0, orig[j + 1].0));
                    } else if j + 1 == i {
                        assert(self@[j] == orig[j]);
                        assert(self@[j + 1].0 == k);
                        assert(lex_lt(orig[j].0, k));
                    } else if j == i {
                        assert(self@[j].0 == k);
                        assert(self@[j + 1] == orig[j]);
                        assert(j < orig.len());
                        assert(lex_lt(k, orig[j].0));
                    } else {
                        assert(self@[j] == orig[j - 1]);
                        assert(self@[j + 1] == orig[j]);
                        let m = j - 1;
                        assert(lex_lt(orig[m].0, orig[m + 1].0));
                    }
                }
                assert(self@[i as int].0 == k);
            }
        }
    }
}

/// One encoded pair: key, `=`, rendered value.
pub open spec fn pair_bytes(p: (Seq<u8>, Seq<u8>)) -> Seq<u8> {
    p.0 + seq![0x3du8] + p.1
}

/// Encoded pairs joined by `&`.
pub open spec fn joined(ps: Seq<(Seq<u8>, Seq<u8>)>) -> Seq<u8>
    decreases ps.len(),
{
    if ps.len() == 0 {
        Seq::empty()
    } else if ps.len() == 1 {
        pair_bytes(ps[0])
    } else {
        joined(ps.drop_last()) + seq![0x26u8] + pair_bytes(ps.last())
    }
}

/// The canonical encoding of a parameter set: its pairs, already in strict
/// key order, joined by `&`.
pub open spec fn encoded_params(s: &ParameterSet) -> Seq<u8> {
    joined(s@)
}

impl ParameterSet {
    /// Encode the set as a canonical query string.
    pub fn encode(&self) -> (r: Vec<u8>)
        ensures
            r@ == encoded_params(self),
    {
        let mut out: Vec<u8> = Vec::new();
        let mut i: usize = 0;
        proof {
            assert(self@.subrange(0, 0) =~= Seq::<(Seq<u8>, Seq<u8>)>::empty());
        }
        while i < self.entries.len()
            invariant
                i <= self.entries@.len(),
                self@.len() == self.entries@.len(),
                out@ == joined(self@.subrange(0, i as int)),
            decreases self.entries@.len() - i,
        {
            if i > 0 {
                out.push(0x26);
            }
            push_bytes(&mut out, self.entries[i].key.as_slice());
            out.push(0x3d);
            let v = render_value(&self.entries[i].value);
            push_bytes(&mut out, v.as_slice());
            proof {
                let pre = self@.subrange(0, i as int);
                let cur = self@.subrange(0, i + 1);
                assert(cur.drop_last() =~= pre);
                assert(cur.last() == self@[i as int]);
                assert(self@[i as int].0 == self.entries@[i as int].key@);
                assert(self@[i as int].1 == rendered_value(self.entries@[i as int].value));
                if i == 0 {
                    assert(out@ =~= pair_bytes(cur[0]));
                } else {
                    assert(out@ =~= joined(pre) + seq![0x26u8] + pair_bytes(cur.last()));
                }
            }
            i = i + 1;
        }
        proof {
            assert(self@.subrange(0, self@.len() as int) =~= self@);
        }
        out
    }
}

/// A key that was never inserted does not occur among the encoded pairs:
/// absent optional parameters leave no trace in the query string.
pub proof fn lemma_absent_key_not_encoded(s: &ParameterSet, k: Seq<u8>)
    requires
        !s.has_key(k),
    ensures
        forall|i: int| 0 <= i < s@.len() ==> s@[i].0 != k,
{
}

/// Encoded keys appear in strictly increasing lexicographic order: any
/// earlier pair's key is strictly below any later pair's key.
pub proof fn lemma_keys_strictly_sorted(s: &ParameterSet, i: int, j: int)
    requires
        s.wf(),
        0 <= i < j < s@.len(),
    ensures
        lex_lt(s@[i].0, s@[j].0),
    decreases j - i,
{
    let prev = j - 1;
    if j == i + 1 {
        assert(lex_lt(s@[prev].0, s@[prev + 1].0));
    } else {
        lemma_keys_strictly_sorted(s, i, prev);
        assert(lex_lt(s@[prev].0, s@[prev + 1].0));
        lemma_lex_lt_trans(s@[i].0, s@[prev].0, s@[j].0);
    }
}

} // verus!
