use vstd::prelude::*;

verus! {

/// An ordered, multi-valued header map. Names are kept in lower case, as the
/// HTTP layer stores them; lookups are exact matches on those names.
#[derive(Debug)]
pub struct Headers {
    pub entries: Vec<(String, String)>,
}

/// The name and value views of a sequence of entries.
pub open spec fn entries_view(v: Seq<(String, String)>) -> Seq<(Seq<char>, Seq<char>)> {
    v.map_values(|p: (String, String)| (p.0@, p.1@))
}

impl View for Headers {
    type V = Seq<(Seq<char>, Seq<char>)>;

    open spec fn view(&self) -> Seq<(Seq<char>, Seq<char>)> {
        entries_view(self.entries@)
    }
}

/// Whether a header name is in lower-case normal form. HTTP header names
/// compare case-insensitively; the HTTP layer hands them over lower-cased,
/// and lookups here are exact matches on that normal form.
pub open spec fn is_lower_name(s: Seq<char>) -> bool {
    forall|i: int| 0 <= i < s.len() ==> !(65 <= s[i] as u32 && s[i] as u32 <= 90)
}

/// Whether every entry's name is in lower-case normal form.
pub open spec fn lower_names(h: Seq<(Seq<char>, Seq<char>)>) -> bool {
    forall|i: int| 0 <= i < h.len() ==> is_lower_name(#[trigger] h[i].0)
}

/// The first value stored under `name`, scanning the entries in order.
pub open spec fn first_value(h: Seq<(Seq<char>, Seq<char>)>, name: Seq<char>) -> Option<Seq<char>>
    decreases h.len(),
{
    if h.len() == 0 {
        None
    } else if h[0].0 == name {
        Some(h[0].1)
    } else {
        first_value(h.drop_first(), name)
    }
}

pub open spec fn has_header(h: Seq<(Seq<char>, Seq<char>)>, name: Seq<char>) -> bool {
    first_value(h, name) is Some
}

/// The entries that do not carry `name`, in their original order.
pub open spec fn remove_name(h: Seq<(Seq<char>, Seq<char>)>, name: Seq<char>) -> Seq<
    (Seq<char>, Seq<char>),
>
    decreases h.len(),
{
    if h.len() == 0 {
        Seq::empty()
    } else {
        let prior = remove_name(h.drop_last(), name);
        if h.last().0 == name {
            prior
        } else {
            prior.push(h.last())
        }
    }
}

/// Replacement semantics: every prior entry under `name` is dropped and a
/// single entry with the new value is appended.
pub open spec fn set_value(
    h: Seq<(Seq<char>, Seq<char>)>,
    name: Seq<char>,
    value: Seq<char>,
) -> Seq<(Seq<char>, Seq<char>)> {
    remove_name(h, name).push((name, value))
}

proof fn lemma_first_value_push_other(
    h: Seq<(Seq<char>, Seq<char>)>,
    p: (Seq<char>, Seq<char>),
    name: Seq<char>,
)
    requires
        p.0 != name,
    ensures
        first_value(h.push(p), name) == first_value(h, name),
    decreases h.len(),
{
    if h.len() == 0 {
        assert(h.push(p)[0] == p);
        assert(h.push(p).drop_first() =~= Seq::<(Seq<char>, Seq<char>)>::empty());
    } else {
        assert(h.push(p)[0] == h[0]);
        assert(h.push(p).drop_first() =~= h.drop_first().push(p));
        lemma_first_value_push_other(h.drop_first(), p, name);
    }
}

proof fn lemma_first_value_push_absent(
    h: Seq<(Seq<char>, Seq<char>)>,
    p: (Seq<char>, Seq<char>),
)
    requires
        first_value(h, p.0) is None,
    ensures
        first_value(h.push(p), p.0) == Some(p.1),
    decreases h.len(),
{
    if h.len() == 0 {
        assert(h.push(p)[0] == p);
    } else {
        assert(h.push(p)[0] == h[0]);
        assert(h.push(p).drop_first() =~= h.drop_first().push(p));
        lemma_first_value_push_absent(h.drop_first(), p);
    }
}

proof fn lemma_remove_name_absent(h: Seq<(Seq<char>, Seq<char>)>, name: Seq<char>)
    ensures
        first_value(remove_name(h, name), name) is None,
    decreases h.len(),
{
    if h.len() > 0 {
        lemma_remove_name_absent(h.drop_last(), name);
        if h.last().0 != name {
            lemma_first_value_push_other(remove_name(h.drop_last(), name), h.last(), name);
        }
    }
}

proof fn lemma_remove_name_other(h: Seq<(Seq<char>, Seq<char>)>, name: Seq<char>, m: Seq<char>)
    requires
        m != name,
    ensures
        first_value(remove_name(h, name), m) == first_value(h, m),
    decreases h.len(),
{
    if h.len() > 0 {
        lemma_remove_name_other(h.drop_last(), name, m);
        lemma_first_value_drop_last(h, m);
        if h.last().0 == name {
        } else {
            if first_value(remove_name(h.drop_last(), name), m) is Some {
                lemma_first_value_some_push(remove_name(h.drop_last(), name), h.last(), m);
            } else if h.last().0 == m {
                lemma_first_value_push_absent(remove_name(h.drop_last(), name), h.last());
            } else {
                lemma_first_value_push_other(remove_name(h.drop_last(), name), h.last(), m);
            }
        }
    }
}

proof fn lemma_first_value_drop_last(h: Seq<(Seq<char>, Seq<char>)>, m: Seq<char>)
    requires
        h.len() > 0,
    ensures
        first_value(h, m) == if first_value(h.drop_last(), m) is Some {
            first_value(h.drop_last(), m)
        } else if h.last().0 == m {
            Some(h.last().1)
        } else {
            None
        },
    decreases h.len(),
{
    if h.len() == 1 {
        assert(h.drop_last() =~= Seq::<(Seq<char>, Seq<char>)>::empty());
    } else {
        assert(h.drop_last()[0] == h[0]);
        assert(h.drop_last().drop_first() =~= h.drop_first().drop_last());
        lemma_first_value_drop_last(h.drop_first(), m);
    }
}

proof fn lemma_first_value_some_push(
    h: Seq<(Seq<char>, Seq<char>)>,
    p: (Seq<char>, Seq<char>),
    m: Seq<char>,
)
    requires
        first_value(h, m) is Some,
    ensures
        first_value(h.push(p), m) == first_value(h, m),
    decreases h.len(),
{
    if h.len() > 0 {
        assert(h.push(p)[0] == h[0]);
        assert(h.push(p).drop_first() =~= h.drop_first().push(p));
        if h[0].0 != m {
            lemma_first_value_some_push(h.drop_first(), p, m);
        }
    }
}

proof fn lemma_remove_name_lower(h: Seq<(Seq<char>, Seq<char>)>, name: Seq<char>)
    requires
        lower_names(h),
    ensures
        lower_names(remove_name(h, name)),
    decreases h.len(),
{
    if h.len() > 0 {
        assert forall|i: int| 0 <= i < h.drop_last().len() implies is_lower_name(
            #[trigger] h.drop_last()[i].0,
        ) by {
            assert(h.drop_last()[i] == h[i]);
        }
        lemma_remove_name_lower(h.drop_last(), name);
    }
}

/// Setting a lower-case name keeps every name in lower-case normal form.
pub proof fn lemma_set_value_lower(
    h: Seq<(Seq<char>, Seq<char>)>,
    name: Seq<char>,
    value: Seq<char>,
)
    requires
        lower_names(h),
        is_lower_name(name),
    ensures
        lower_names(set_value(h, name, value)),
{
    lemma_remove_name_lower(h, name);
    let s = set_value(h, name, value);
    assert forall|i: int| 0 <= i < s.len() implies is_lower_name(#[trigger] s[i].0) by {
        if i < s.len() - 1 {
            assert(s[i] == remove_name(h, name)[i]);
        } else {
            assert(s[i] == (name, value));
        }
    }
}

/// Setting one name leaves every other name's first value alone, and makes the
/// set value the first value of that name.
pub proof fn lemma_set_value(
    h: Seq<(Seq<char>, Seq<char>)>,
    name: Seq<char>,
    value: Seq<char>,
    m: Seq<char>,
)
    ensures
        first_value(set_value(h, name, value), m) == if m == name {
            Some(value)
        } else {
            first_value(h, m)
        },
{
    if m == name {
        lemma_remove_name_absent(h, name);
        lemma_first_value_push_absent(remove_name(h, name), (name, value));
    } else {
        lemma_remove_name_other(h, name, m);
        if first_value(remove_name(h, name), m) is Some {
            lemma_first_value_some_push(remove_name(h, name), (name, value), m);
        } else {
            lemma_first_value_push_other(remove_name(h, name), (name, value), m);
        }
    }
}

impl Headers {
    /// Well-formedness: every name is in lower-case normal form, so exact
    /// lookups realise the case-insensitive header semantics.
    pub open spec fn wf(&self) -> bool {
        lower_names(self@)
    }

    /// The first value stored under `name`, cloned out, or `None`.
    pub fn get_first(&self, name: &str) -> (r: Option<String>)
        ensures
            match r {
                Some(v) => first_value(self@, name@) == Some(v@),
                None => first_value(self@, name@) is None,
            },
    {
        let needle: String = name.to_owned();
        let mut i: usize = 0;
        proof {
            assert(self@.skip(0) =~= self@);
        }
        while i < self.entries.len()
            invariant
                0 <= i <= self.entries.len(),
                needle@ == name@,
                first_value(self@.skip(i as int), name@) == first_value(self@, name@),
            decreases self.entries.len() - i,
        {
            if self.entries[i].0 == needle {
                proof {
                    assert(self@.skip(i as int)[0] == self@[i as int]);
                }
                return Some(self.entries[i].1.clone());
            }
            proof {
                assert(self@.skip(i as int)[0] == self@[i as int]);
                assert(self@.skip(i as int).drop_first() =~= self@.skip(i + 1));
            }
            i = i + 1;
        }
        proof {
            assert(self@.skip(i as int) =~= Seq::<(Seq<char>, Seq<char>)>::empty());
        }
        None
    }

    /// A copy with the same entries.
    pub fn duplicate(&self) -> (r: Headers)
        ensures
            r@ == self@,
    {
        let mut entries: Vec<(String, String)> = Vec::new();
        let mut i: usize = 0;
        while i < self.entries.len()
            invariant
                0 <= i <= self.entries.len(),
                entries_view(entries@) == self@.take(i as int),
            decreases self.entries.len() - i,
        {
            let ghost pre = entries@;
            entries.push((self.entries[i].0.clone(), self.entries[i].1.clone()));
            proof {
                assert(entries_view(pre).len() == pre.len());
                assert(pre.len() == i as int);
                assert(entries@.len() == i + 1);
                let newv = entries_view(entries@);
                assert forall|k: int| 0 <= k < i + 1 implies newv[k] == self@.take(i + 1)[k] by {
                    if k < i {
                        assert(newv[k] == entries_view(pre)[k]);
                    } else {
                        assert(entries@[k] == entries@.last());
                    }
                }
                assert(newv =~= self@.take(i + 1));
            }
            i = i + 1;
        }
        proof {
            assert(self@.take(self.entries.len() as int) =~= self@);
        }
        Headers { entries }
    }

    /// Whether any entry carries `name`.
    pub fn contains_name(&self, name: &str) -> (r: bool)
        ensures
            r == has_header(self@, name@),
    {
        let v = self.get_first(name);
        v.is_some()
    }

    /// Drops every entry under `name` and appends one with the given value.
    pub fn set_replacing(&mut self, name: &str, value: String)
        ensures
            final(self)@ == set_value(old(self)@, name@, value@),
            old(self).wf() && is_lower_name(name@) ==> final(self).wf(),
    {
        let mut kept: Vec<(String, String)> = Vec::new();
        let needle: String = name.to_owned();
        let mut i: usize = 0;
        while i < self.entries.len()
            invariant
                0 <= i <= self.entries.len(),
                needle@ == name@,
                entries_view(kept@) == remove_name(self@.take(i as int), name@),
            decreases self.entries.len() - i,
        {
            let ghost pre = self@.take(i as int);
            if !(self.entries[i].0 == needle) {
                kept.push((self.entries[i].0.clone(), self.entries[i].1.clone()));
            }
            proof {
                assert(self@.take(i + 1).drop_last() =~= pre);
                assert(self@.take(i + 1).last() == self@[i as int]);
                if self@[i as int].0 != name@ {
                    assert(entries_view(kept@) =~= remove_name(pre, name@).push(self@[i as int]));
                }
            }
            i = i + 1;
        }
        proof {
            assert(self@.take(i as int) =~= self@);
        }
        kept.push((needle, value));
        proof {
            assert(Self { entries: kept }@ =~= set_value(old(self)@, name@, value@));
            if old(self).wf() && is_lower_name(name@) {
                lemma_set_value_lower(old(self)@, name@, value@);
            }
        }
        self.entries = kept;
    }
}

} // verus!
