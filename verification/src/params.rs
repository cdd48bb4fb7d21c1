use vstd::prelude::*;

verus! {

/// A request parameter: name and value.
pub type SpecPair = (Seq<char>, Seq<char>);

/// No two parameters share a name.
pub open spec fn keys_distinct(ps: Seq<SpecPair>) -> bool {
    forall|i: int, j: int| 0 <= i < j < ps.len() ==> ps[i].0 != ps[j].0
}

/// Whether some parameter is named `k`.
pub open spec fn has_key(ps: Seq<SpecPair>, k: Seq<char>) -> bool {
    exists|i: int| 0 <= i < ps.len() && ps[i].0 == k
}

/// The parameters as a map from name to value.
pub open spec fn spec_pairs_map(ps: Seq<SpecPair>) -> Map<Seq<char>, Seq<char>>
    decreases ps.len(),
{
    if ps.len() == 0 {
        Map::empty()
    } else {
        spec_pairs_map(ps.drop_last()).insert(ps.last().0, ps.last().1)
    }
}

/// The list after setting `k` to `v`: an existing parameter of that name
/// keeps its place and takes the new value; otherwise the parameter goes last.
pub open spec fn spec_insert_pair(ps: Seq<SpecPair>, k: Seq<char>, v: Seq<char>) -> Seq<SpecPair> {
    if has_key(ps, k) {
        ps.map_values(|p: SpecPair| if p.0 == k { (k, v) } else { p })
    } else {
        ps.push((k, v))
    }
}

/// `name=value`.
pub open spec fn spec_pair_text(p: SpecPair) -> Seq<char> {
    p.0 + seq!['='] + p.1
}

/// The body holds `name=value` as one of its `&`-separated parts.
pub open spec fn form_sends(body: Seq<char>, name: Seq<char>, value: Seq<char>) -> bool {
    exists|pre: Seq<char>, post: Seq<char>|
        body == pre + (name + seq!['='] + value) + post
            && (pre.len() == 0 || pre.last() == '&')
            && (post.len() == 0 || post[0] == '&')
}

/// The form body of a parameter list: `name=value` for each parameter, in
/// order, separated by `&`, without escaping.
pub open spec fn spec_form(ps: Seq<SpecPair>) -> Seq<char>
    decreases ps.len(),
{
    if ps.len() == 0 {
        Seq::empty()
    } else if ps.len() == 1 {
        spec_pair_text(ps[0])
    } else {
        spec_form(ps.drop_last()) + seq!['&'] + spec_pair_text(ps.last())
    }
}

/// The parameters of a request: a map from name to value that remembers the
/// order in which names were first set, the order in which the body lists
/// them.
pub struct Params {
    entries: Vec<(String, String)>,
}

impl Params {
    /// The parameters in order, by their text.
    pub closed spec fn pairs(&self) -> Seq<SpecPair> {
        self.entries@.map_values(|e: (String, String)| (e.0@, e.1@))
    }

    #[verifier::type_invariant]
    spec fn names_distinct(&self) -> bool {
        keys_distinct(self.pairs())
    }

    /// No parameters.
    pub fn new() -> (p: Params)
        ensures
            p.pairs() == Seq::<SpecPair>::empty(),
            p@ == Map::<Seq<char>, Seq<char>>::empty(),
            keys_distinct(p.pairs()),
    {
        let p = Params { entries: Vec::new() };
        assert(p.pairs() =~= Seq::<SpecPair>::empty());
        p
    }

    /// Sets parameter `key` to `value`, replacing any earlier value.
    pub fn insert(&mut self, key: String, value: String)
        ensures
            final(self).pairs() == spec_insert_pair(old(self).pairs(), key@, value@),
            final(self)@ == old(self)@.insert(key@, value@),
            keys_distinct(old(self).pairs()),
            keys_distinct(final(self).pairs()),
    {
        proof {
            use_type_invariant(&*self);
            lemma_insert_pair(self.pairs(), key@, value@);
        }
        let ghost old_pairs = self.pairs();
        let n = self.entries.len();
        let mut i: usize = 0;
        while i < n
            invariant
                n == self.entries@.len(),
                i <= n,
                self.pairs() == old_pairs,
                old_pairs == old(self).pairs(),
                keys_distinct(old_pairs),
                forall|j: int| 0 <= j < i ==> old_pairs[j].0 != key@,
            decreases n - i,
        {
            if self.entries[i].0 == key {
                let ghost k = key@;
                let ghost v = value@;
                proof {
                    assert(old_pairs[i as int].0 == k);
                    assert(has_key(old_pairs, k));
                    lemma_insert_pair(old_pairs, k, v);
                }
                let mut entries = Vec::new();
                std::mem::swap(&mut entries, &mut self.entries);
                entries.set(i, (key, value));
                proof {
                    assert(entries@.map_values(|e: (String, String)| (e.0@, e.1@))
                        =~= spec_insert_pair(old_pairs, k, v));
                }
                self.entries = entries;
                return;
            }
            i = i + 1;
        }
        let ghost k = key@;
        let ghost v = value@;
        let mut entries = Vec::new();
        std::mem::swap(&mut entries, &mut self.entries);
        entries.push((key, value));
        proof {
            assert(!has_key(old_pairs, k));
            assert(entries@.map_values(|e: (String, String)| (e.0@, e.1@))
                =~= spec_insert_pair(old_pairs, k, v));
        }
        self.entries = entries;
    }

    /// The form body: `name=value` for each parameter in order, joined by `&`;
    /// no name occurs twice in it.
    pub fn encode(&self) -> (body: String)
        ensures
            body@ == spec_form(self.pairs()),
            keys_distinct(self.pairs()),
    {
        proof {
            use_type_invariant(self);
        }
        let mut body = String::new();
        let n = self.entries.len();
        for i in 0..n
            invariant
                n == self.entries@.len(),
                body@ == spec_form(self.pairs().take(i as int)),
        {
            if i > 0 {
                proof { reveal_strlit("&"); }
                body.append("&");
            }
            body.append(self.entries[i].0.as_str());
            proof { reveal_strlit("="); }
            body.append("=");
            body.append(self.entries[i].1.as_str());
            proof {
                let t = self.pairs().take(i + 1);
                assert(t.drop_last() =~= self.pairs().take(i as int));
                assert(t.last() == self.pairs()[i as int]);
                assert(body@ =~= spec_form(t));
            }
        }
        assert(self.pairs().take(n as int) =~= self.pairs());
        body
    }
}

impl View for Params {
    type V = Map<Seq<char>, Seq<char>>;

    open spec fn view(&self) -> Map<Seq<char>, Seq<char>> {
        spec_pairs_map(self.pairs())
    }
}

/// Setting a parameter keeps names distinct and sets that name in the map.
pub proof fn lemma_insert_pair(ps: Seq<SpecPair>, k: Seq<char>, v: Seq<char>)
    requires
        keys_distinct(ps),
    ensures
        keys_distinct(spec_insert_pair(ps, k, v)),
        spec_pairs_map(spec_insert_pair(ps, k, v)) == spec_pairs_map(ps).insert(k, v),
    decreases ps.len(),
{
    let r = spec_insert_pair(ps, k, v);
    if has_key(ps, k) {
        assert forall|i: int, j: int| 0 <= i < j < r.len() implies r[i].0 != r[j].0 by {
            assert(ps[i].0 != ps[j].0);
        }
        if ps.len() > 0 {
            let q = ps.drop_last();
            let l = ps.last();
            assert(r.drop_last() =~= q.map_values(|p: SpecPair| if p.0 == k { (k, v) } else { p }));
            if l.0 == k {
                assert(!has_key(q, k)) by {
                    if has_key(q, k) {
                        let i = choose|i: int| 0 <= i < q.len() && q[i].0 == k;
                        assert(ps[i].0 == ps[ps.len() - 1].0);
                    }
                }
                assert(r.drop_last() =~= q);
                assert(spec_pairs_map(r) =~= spec_pairs_map(ps).insert(k, v));
            } else {
                assert(has_key(q, k)) by {
                    let i = choose|i: int| 0 <= i < ps.len() && ps[i].0 == k;
                    assert(i < ps.len() - 1);
                    assert(q[i].0 == k);
                }
                lemma_insert_pair(q, k, v);
                assert(spec_insert_pair(q, k, v) == r.drop_last());
                assert(spec_pairs_map(r) =~= spec_pairs_map(ps).insert(k, v));
            }
        }
    } else {
        assert(r.drop_last() =~= ps);
        assert forall|i: int, j: int| 0 <= i < j < r.len() implies r[i].0 != r[j].0 by {
            if j < ps.len() {
                assert(ps[i].0 != ps[j].0);
            }
        }
    }
}

/// Joining two non-empty parameter lists puts `&` between their bodies.
pub proof fn lemma_form_concat(a: Seq<SpecPair>, b: Seq<SpecPair>)
    requires
        a.len() > 0,
        b.len() > 0,
    ensures
        spec_form(a + b) == spec_form(a) + seq!['&'] + spec_form(b),
    decreases b.len(),
{
    let ab = a + b;
    if b.len() == 1 {
        assert(ab.drop_last() =~= a);
        assert(ab.last() == b[0]);
    } else {
        assert(ab.drop_last() =~= a + b.drop_last());
        assert(ab.last() == b.last());
        lemma_form_concat(a, b.drop_last());
        assert(spec_form(ab) =~= spec_form(a) + seq!['&'] + spec_form(b));
    }
}

/// The body lists every parameter as `name=value`, set off from its
/// neighbours by `&`.
pub proof fn lemma_form_lists_pair(ps: Seq<SpecPair>, i: int)
    requires
        0 <= i < ps.len(),
    ensures
        form_sends(spec_form(ps), ps[i].0, ps[i].1),
{
    let front = ps.take(i);
    let mid = seq![ps[i]];
    let back = ps.skip(i + 1);
    assert(ps =~= front + mid + back);
    assert(spec_form(mid) == spec_pair_text(ps[i]));
    let pre = if i == 0 { Seq::<char>::empty() } else { spec_form(front) + seq!['&'] };
    let post = if i + 1 == ps.len() { Seq::<char>::empty() } else { seq!['&'] + spec_form(back) };
    let fm = front + mid;
    if i == 0 {
        assert(fm =~= mid);
    } else {
        lemma_form_concat(front, mid);
    }
    assert(spec_form(fm) =~= pre + spec_pair_text(ps[i]));
    if i + 1 == ps.len() {
        assert(ps =~= fm);
    } else {
        lemma_form_concat(fm, back);
        assert(ps =~= fm + back);
    }
    assert(spec_form(ps) =~= pre + spec_pair_text(ps[i]) + post);
}

/// A name set in the map view is the name of a parameter in the list, which
/// carries the mapped value.
pub proof fn lemma_pairs_map_entry(ps: Seq<SpecPair>, k: Seq<char>)
    requires
        keys_distinct(ps),
        spec_pairs_map(ps).dom().contains(k),
    ensures
        exists|i: int| 0 <= i < ps.len() && ps[i] == (k, spec_pairs_map(ps)[k]),
    decreases ps.len(),
{
    let q = ps.drop_last();
    let l = ps.last();
    if l.0 == k {
        assert(ps[ps.len() - 1] == (k, spec_pairs_map(ps)[k]));
    } else {
        assert(keys_distinct(q)) by {
            assert forall|i: int, j: int| 0 <= i < j < q.len() implies q[i].0 != q[j].0 by {
                assert(ps[i].0 != ps[j].0);
            }
        }
        lemma_pairs_map_entry(q, k);
        let i = choose|i: int| 0 <= i < q.len() && q[i] == (k, spec_pairs_map(q)[k]);
        assert(ps[i] == (k, spec_pairs_map(ps)[k]));
    }
}

/// Every parameter that is set is sent: the body holds `name=value` for it,
/// with the value the map gives, set off from its neighbours by `&`.
pub proof fn lemma_form_sends_param(ps: Seq<SpecPair>, k: Seq<char>)
    requires
        keys_distinct(ps),
        spec_pairs_map(ps).dom().contains(k),
    ensures
        form_sends(spec_form(ps), k, spec_pairs_map(ps)[k]),
{
    lemma_pairs_map_entry(ps, k);
    let i = choose|i: int| 0 <= i < ps.len() && ps[i] == (k, spec_pairs_map(ps)[k]);
    lemma_form_lists_pair(ps, i);
}

/// Splits text at every `sep`: the pieces between separators, in order (one
/// piece more than there are separators).
pub open spec fn split_on(s: Seq<char>, sep: char) -> Seq<Seq<char>>
    decreases s.len(),
{
    if s.len() == 0 {
        seq![Seq::<char>::empty()]
    } else {
        let rest = split_on(s.drop_last(), sep);
        if s.last() == sep {
            rest.push(Seq::<char>::empty())
        } else {
            rest.update(rest.len() - 1, rest.last().push(s.last()))
        }
    }
}

/// Splits a piece at its first `=`: the name before it and the value after
/// it; a piece without `=` is all name.
pub open spec fn split_first_eq(p: Seq<char>) -> SpecPair
    decreases p.len(),
{
    if p.len() == 0 {
        (Seq::empty(), Seq::empty())
    } else if p[0] == '=' {
        (Seq::empty(), p.drop_first())
    } else {
        let rest = split_first_eq(p.drop_first());
        (seq![p[0]] + rest.0, rest.1)
    }
}

/// How a form body is read back: nothing from an empty body, otherwise the
/// `&`-separated pieces, each split at its first `=`.
pub open spec fn form_decode(body: Seq<char>) -> Seq<SpecPair> {
    if body.len() == 0 {
        Seq::empty()
    } else {
        split_on(body, '&').map_values(|piece: Seq<char>| split_first_eq(piece))
    }
}

/// No name holds `&` or `=`, and no value holds `&`.
pub open spec fn form_safe(ps: Seq<SpecPair>) -> bool {
    forall|i: int|
        0 <= i < ps.len() ==> !(#[trigger] ps[i]).0.contains('&') && !ps[i].0.contains('=')
            && !ps[i].1.contains('&')
}

/// Splitting text without the separator gives the text as the only piece.
proof fn lemma_split_none(s: Seq<char>, sep: char)
    requires
        !s.contains(sep),
    ensures
        split_on(s, sep) == seq![s],
    decreases s.len(),
{
    if s.len() > 0 {
        assert(!s.drop_last().contains(sep)) by {
            if s.drop_last().contains(sep) {
                let i = choose|i: int| 0 <= i < s.drop_last().len() && s.drop_last()[i] == sep;
                assert(s[i] == sep);
            }
        }
        lemma_split_none(s.drop_last(), sep);
        assert(s.last() != sep) by {
            assert(s[s.len() - 1] == s.last());
        }
        assert(s.drop_last().push(s.last()) =~= s);
        assert(split_on(s, sep) =~= seq![s]);
    } else {
        assert(s =~= Seq::<char>::empty());
    }
}

/// Splitting at a separator splits the parts on either side of it.
proof fn lemma_split_join(a: Seq<char>, b: Seq<char>, sep: char)
    ensures
        split_on(a + seq![sep] + b, sep) == split_on(a, sep) + split_on(b, sep),
    decreases b.len(),
{
    let ab = a + seq![sep] + b;
    if b.len() == 0 {
        assert(ab.drop_last() =~= a);
        assert(ab.last() == sep);
        assert(split_on(ab, sep) =~= split_on(a, sep) + split_on(b, sep));
    } else {
        assert(ab.drop_last() =~= a + seq![sep] + b.drop_last());
        assert(ab.last() == b.last());
        lemma_split_join(a, b.drop_last(), sep);
        lemma_split_nonempty(b.drop_last(), sep);
        lemma_split_nonempty(a, sep);
        assert(split_on(ab, sep) =~= split_on(a, sep) + split_on(b, sep));
    }
}

/// Splitting always gives at least one piece.
proof fn lemma_split_nonempty(s: Seq<char>, sep: char)
    ensures
        split_on(s, sep).len() >= 1,
    decreases s.len(),
{
    if s.len() > 0 {
        lemma_split_nonempty(s.drop_last(), sep);
    }
}

/// A name without `=` followed by `=` and a value splits back into both.
proof fn lemma_split_first_eq(k: Seq<char>, v: Seq<char>)
    requires
        !k.contains('='),
    ensures
        split_first_eq(k + seq!['='] + v) == (k, v),
    decreases k.len(),
{
    let t = k + seq!['='] + v;
    if k.len() == 0 {
        assert(t[0] == '=');
        assert(t.drop_first() =~= v);
    } else {
        assert(t[0] == k[0]);
        assert(k[0] != '=');
        assert(!k.drop_first().contains('=')) by {
            if k.drop_first().contains('=') {
                let i = choose|i: int| 0 <= i < k.drop_first().len() && k.drop_first()[i] == '=';
                assert(k[i + 1] == '=');
            }
        }
        lemma_split_first_eq(k.drop_first(), v);
        assert(t.drop_first() =~= k.drop_first() + seq!['='] + v);
        assert(seq![k[0]] + k.drop_first() =~= k);
    }
}

/// The body splits at `&` into the `name=value` texts of the parameters.
proof fn lemma_form_split(ps: Seq<SpecPair>)
    requires
        ps.len() > 0,
        form_safe(ps),
    ensures
        split_on(spec_form(ps), '&') == ps.map_values(|p: SpecPair| spec_pair_text(p)),
    decreases ps.len(),
{
    let l = ps.last();
    assert(form_safe(seq![l])) by {
        assert(seq![l][0] == ps[ps.len() - 1]);
    }
    assert(!spec_pair_text(l).contains('&')) by {
        let _ = ps[ps.len() - 1];
        if spec_pair_text(l).contains('&') {
            let i = choose|i: int| 0 <= i < spec_pair_text(l).len() && spec_pair_text(l)[i] == '&';
            if i < l.0.len() {
                assert(l.0[i] == '&');
            } else if i == l.0.len() {
            } else {
                assert(l.1[i - l.0.len() - 1] == '&');
            }
        }
    }
    lemma_split_none(spec_pair_text(l), '&');
    if ps.len() == 1 {
        assert(ps.map_values(|p: SpecPair| spec_pair_text(p)) =~= seq![spec_pair_text(l)]);
    } else {
        let q = ps.drop_last();
        assert(form_safe(q)) by {
            assert forall|i: int| 0 <= i < q.len() implies !(#[trigger] q[i]).0.contains('&')
                && !q[i].0.contains('=') && !q[i].1.contains('&') by {
                assert(q[i] == ps[i]);
            }
        }
        lemma_form_split(q);
        lemma_split_join(spec_form(q), spec_pair_text(l), '&');
        assert(ps.map_values(|p: SpecPair| spec_pair_text(p))
            =~= q.map_values(|p: SpecPair| spec_pair_text(p)) + seq![spec_pair_text(l)]);
    }
}

/// Reading a body back gives the parameters it was made from, none lost,
/// added or repeated, provided no name holds `&` or `=` and no value holds `&`.
pub proof fn lemma_form_decode(ps: Seq<SpecPair>)
    requires
        form_safe(ps),
    ensures
        form_decode(spec_form(ps)) == ps,
{
    if ps.len() > 0 {
        lemma_form_split(ps);
        assert(spec_form(ps).len() > 0) by {
            lemma_form_nonempty(ps);
        }
        let texts = ps.map_values(|p: SpecPair| spec_pair_text(p));
        assert forall|i: int| 0 <= i < ps.len() implies split_first_eq(texts[i]) == ps[i] by {
            let _ = ps[i];
            lemma_split_first_eq(ps[i].0, ps[i].1);
        }
        assert(form_decode(spec_form(ps)) =~= ps);
    }
}

/// The body of a non-empty parameter list is not empty.
proof fn lemma_form_nonempty(ps: Seq<SpecPair>)
    requires
        ps.len() > 0,
    ensures
        spec_form(ps).len() > 0,
{
    if ps.len() == 1 {
        assert(spec_pair_text(ps[0]).len() > 0);
    }
}

/// The map of two lists one after the other: the later list's values win.
pub proof fn lemma_pairs_map_concat(a: Seq<SpecPair>, b: Seq<SpecPair>)
    ensures
        spec_pairs_map(a + b) == spec_pairs_map(a).union_prefer_right(spec_pairs_map(b)),
    decreases b.len(),
{
    if b.len() == 0 {
        assert(a + b =~= a);
        assert(spec_pairs_map(a).union_prefer_right(spec_pairs_map(b)) =~= spec_pairs_map(a));
    } else {
        lemma_pairs_map_concat(a, b.drop_last());
        assert((a + b).drop_last() =~= a + b.drop_last());
        assert((a + b).last() == b.last());
        assert(spec_pairs_map(a + b) =~= spec_pairs_map(a).union_prefer_right(spec_pairs_map(b)));
    }
}

} // verus!
