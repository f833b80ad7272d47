use vstd::prelude::*;

verus! {

/// Whether no text occurs twice in `s`.
pub open spec fn no_repeats(s: Seq<Seq<char>>) -> bool {
    forall|i: int, j: int| 0 <= i < j < s.len() ==> s[i] != s[j]
}

/// Whether a text differs from `t`.
pub open spec fn differs(t: Seq<char>) -> spec_fn(Seq<char>) -> bool {
    |x: Seq<char>| x != t
}

/// `s` without the occurrences of `t`, in order.
pub open spec fn without(s: Seq<Seq<char>>, t: Seq<char>) -> Seq<Seq<char>> {
    s.filter(differs(t))
}

/// The texts of a list of strings.
pub open spec fn texts(v: Seq<String>) -> Seq<Seq<char>> {
    v.map_values(|x: String| x@)
}

/// Whether a text is missing from `d`.
pub open spec fn absent_from(d: Seq<Seq<char>>) -> spec_fn(Seq<char>) -> bool {
    |x: Seq<char>| !d.contains(x)
}

/// Filtering keeps a sequence free of repeats.
pub proof fn lemma_filter_no_repeats(s: Seq<Seq<char>>, f: spec_fn(Seq<char>) -> bool)
    requires
        no_repeats(s),
    ensures
        no_repeats(s.filter(f)),
    decreases s.len(),
{
    reveal(Seq::filter);
    if s.len() > 0 {
        let r = s.drop_last();
        assert forall|i: int, j: int| 0 <= i < j < r.len() implies r[i] != r[j] by {
            assert(r[i] == s[i] && r[j] == s[j]);
        }
        lemma_filter_no_repeats(r, f);
        if f(s.last()) {
            let fr = r.filter(f);
            assert forall|i: int| 0 <= i < fr.len() implies fr[i] != s.last() by {
                assert(fr.contains(fr[i]));
                r.lemma_filter_contains_rev(f, fr[i]);
                let k = choose|k: int| 0 <= k < r.len() && r[k] == fr[i];
                assert(s[k] == r[k]);
            }
            assert(s.filter(f) =~= fr.push(s.last()));
        }
    }
}

/// A list of distinct texts, in the order they were first added.
pub struct TextSet {
    items: Vec<String>,
}

impl View for TextSet {
    type V = Seq<Seq<char>>;

    closed spec fn view(&self) -> Seq<Seq<char>> {
        texts(self.items@)
    }
}

impl TextSet {
    pub open spec fn wf(&self) -> bool {
        no_repeats(self@)
    }

    pub fn new() -> (r: TextSet)
        ensures
            r.wf(),
            r@ == Seq::<Seq<char>>::empty(),
    {
        TextSet { items: Vec::new() }
    }

    /// Number of texts.
    pub fn len(&self) -> (r: usize)
        ensures
            r == self@.len(),
    {
        self.items.len()
    }

    /// Whether `t` is in the list.
    pub fn contains(&self, t: &String) -> (r: bool)
        ensures
            r == self@.contains(t@),
    {
        let mut i: usize = 0;
        while i < self.items.len()
            invariant
                i <= self.items@.len(),
                forall|j: int| 0 <= j < i ==> self.items@[j]@ != t@,
            decreases self.items@.len() - i,
        {
            if self.items[i] == *t {
                proof {
                    assert(self@[i as int] == t@);
                }
                return true;
            }
            i = i + 1;
        }
        proof {
            if self@.contains(t@) {
                let j = choose|j: int| 0 <= j < self@.len() && self@[j] == t@;
                assert(self.items@[j]@ == t@);
            }
        }
        false
    }

    /// Appends `t` unless it is already in the list; says whether it was added.
    pub fn add(&mut self, t: String) -> (r: bool)
        requires
            old(self).wf(),
        ensures
            final(self).wf(),
            r == !old(self)@.contains(t@),
            final(self)@ == if r {
                old(self)@.push(t@)
            } else {
                old(self)@
            },
    {
        if self.contains(&t) {
            false
        } else {
            let ghost tv = t@;
            self.items.push(t);
            proof {
                assert(self@ =~= old(self)@.push(tv));
            }
            true
        }
    }

    /// Removes `t`; says whether it was in the list.
    pub fn remove(&mut self, t: &String) -> (r: bool)
        requires
            old(self).wf(),
        ensures
            final(self).wf(),
            r == old(self)@.contains(t@),
            final(self)@ == without(old(self)@, t@),
    {
        let ghost s0 = self@;
        let mut i: usize = 0;
        while i < self.items.len()
            invariant
                self@ == s0,
                s0 == old(self)@,
                no_repeats(s0),
                i <= self.items@.len(),
                forall|j: int| 0 <= j < i ==> self.items@[j]@ != t@,
            decreases self.items@.len() - i,
        {
            if self.items[i] == *t {
                let ghost items0 = self.items@;
                let _removed = self.items.remove(i);
                proof {
                    assert(s0 =~= s0.take(i as int) + seq![t@] + s0.skip(i + 1));
                    assert(self@ =~= s0.take(i as int) + s0.skip(i + 1));
                    assert(s0.take(i as int).filter(differs(t@)) =~= s0.take(i as int)) by {
                        lemma_filter_keeps_all(s0.take(i as int), t@);
                    }
                    assert(s0.skip(i + 1).filter(differs(t@)) =~= s0.skip(i + 1)) by {
                        let rest = s0.skip(i + 1);
                        assert forall|j: int| 0 <= j < rest.len() implies #[trigger] rest[j] != t@ by {
                            assert(s0[i as int] == t@);
                            assert(s0.skip(i + 1)[j] == s0[i + 1 + j]);
                        }
                        lemma_filter_keeps_all(s0.skip(i + 1), t@);
                    }
                    lemma_filter_concat3(s0.take(i as int), seq![t@], s0.skip(i + 1), t@);
                    assert(seq![t@].filter(differs(t@)) =~= Seq::<Seq<char>>::empty()) by {
                        reveal_with_fuel(Seq::filter, 2);
                    }
                    assert(self@ =~= without(s0, t@));
                    assert(s0[i as int] == t@);
                    assert(s0.contains(t@));
                }
                return true;
            }
            i = i + 1;
        }
        proof {
            assert forall|j: int| 0 <= j < s0.len() implies s0[j] != t@ by {
                assert(s0[j] == self.items@[j]@);
            }
            lemma_filter_keeps_all(s0, t@);
            assert(!s0.contains(t@)) by {
                if s0.contains(t@) {
                    let j = choose|j: int| 0 <= j < s0.len() && s0[j] == t@;
                    assert(self.items@[j]@ == t@);
                }
            }
        }
        false
    }

    /// Removes every text that occurs in `drop`, keeping the others in order.
    pub fn remove_all(&mut self, drop: &Vec<String>)
        requires
            old(self).wf(),
        ensures
            final(self).wf(),
            final(self)@ == old(self)@.filter(absent_from(texts(drop@))),
    {
        let ghost s0 = self@;
        let ghost d = texts(drop@);
        let mut kept: Vec<String> = Vec::new();
        let mut i: usize = 0;
        while i < self.items.len()
            invariant
                self@ == s0,
                s0 == old(self)@,
                d == texts(drop@),
                i <= self.items@.len(),
                texts(kept@) == s0.take(i as int).filter(absent_from(d)),
            decreases self.items@.len() - i,
        {
            let mut found = false;
            let mut j: usize = 0;
            while j < drop.len()
                invariant
                    d == texts(drop@),
                    i < self.items@.len(),
                    j <= drop@.len(),
                    found == exists|k: int| 0 <= k < j && drop@[k]@ == self.items@[i as int]@,
                decreases drop@.len() - j,
            {
                if drop[j] == self.items[i] {
                    found = true;
                }
                j = j + 1;
            }
            proof {
                assert(s0[i as int] == self.items@[i as int]@);
                if found {
                    let k = choose|k: int| 0 <= k < drop@.len() && drop@[k]@ == self.items@[i as int]@;
                    assert(d[k] == s0[i as int]);
                } else {
                    assert forall|k: int| 0 <= k < d.len() implies d[k] != s0[i as int] by {
                        assert(d[k] == drop@[k]@);
                    }
                }
                assert(found == d.contains(s0[i as int]));
                assert(s0.take(i + 1) =~= s0.take(i as int) + seq![s0[i as int]]);
                Seq::filter_distributes_over_add(s0.take(i as int), seq![s0[i as int]], absent_from(d));
                reveal_with_fuel(Seq::filter, 2);
            }
            let ghost k0 = kept@;
            if !found {
                kept.push(self.items[i].clone());
                proof {
                    assert(seq![s0[i as int]].filter(absent_from(d)) =~= seq![s0[i as int]]);
                    assert(texts(kept@) =~= texts(k0).push(s0[i as int]));
                }
            } else {
                proof {
                    assert(seq![s0[i as int]].filter(absent_from(d)) =~= Seq::<Seq<char>>::empty());
                    assert(seq![s0[i as int]].filter(absent_from(d)).len() == 0);
                    assert(s0.take(i as int).filter(absent_from(d)) + seq![s0[i as int]].filter(absent_from(d))
                        =~= s0.take(i as int).filter(absent_from(d)));
                }
            }
            i = i + 1;
        }
        proof {
            assert(s0.take(s0.len() as int) =~= s0);
            lemma_filter_no_repeats(s0, absent_from(d));
        }
        self.items = kept;
    }

    /// Removes every text.
    pub fn clear(&mut self)
        ensures
            final(self).wf(),
            final(self)@ == Seq::<Seq<char>>::empty(),
    {
        self.items.clear();
        proof {
            assert(self@ =~= Seq::<Seq<char>>::empty());
        }
    }

    /// Copies of the texts, in order.
    pub fn to_vec(&self) -> (r: Vec<String>)
        ensures
            texts(r@) == self@,
    {
        let mut out: Vec<String> = Vec::new();
        let mut i: usize = 0;
        while i < self.items.len()
            invariant
                i <= self.items@.len(),
                out@.len() == i,
                forall|j: int| 0 <= j < i ==> (#[trigger] out@[j])@ == self.items@[j]@,
            decreases self.items@.len() - i,
        {
            out.push(self.items[i].clone());
            i = i + 1;
        }
        proof {
            assert(texts(out@) =~= self@);
        }
        out
    }
}

/// Removing a text that is absent changes nothing.
pub proof fn lemma_without_absent(s: Seq<Seq<char>>, t: Seq<char>)
    requires
        !s.contains(t),
    ensures
        without(s, t) == s,
{
    assert forall|j: int| 0 <= j < s.len() implies s[j] != t by {
        if s[j] == t {
            assert(s.contains(t));
        }
    }
    lemma_filter_keeps_all(s, t);
}

proof fn lemma_filter_keeps_all(s: Seq<Seq<char>>, t: Seq<char>)
    requires
        forall|j: int| 0 <= j < s.len() ==> s[j] != t,
    ensures
        s.filter(differs(t)) == s,
    decreases s.len(),
{
    reveal(Seq::filter);
    if s.len() > 0 {
        lemma_filter_keeps_all(s.drop_last(), t);
        assert(s.drop_last().push(s.last()) =~= s);
    }
}

proof fn lemma_filter_concat3(a: Seq<Seq<char>>, b: Seq<Seq<char>>, c: Seq<Seq<char>>, t: Seq<char>)
    ensures
        (a + b + c).filter(differs(t)) == a.filter(differs(t)) + b.filter(differs(t)) + c.filter(differs(t)),
{
    let f = differs(t);
    Seq::filter_distributes_over_add(a, b, f);
    Seq::filter_distributes_over_add(a + b, c, f);
}

} // verus!
