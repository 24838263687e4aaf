use vstd::prelude::*;

use nucleo_matcher::pattern::{AtomKind, CaseMatching, Normalization, Pattern};

use crate::string_views;

verus! {

/// What is shown of a playlist found by name.
#[derive(Clone)]
pub struct SummarizedPlaylist {
    pub name: String,
    pub total: u32,
    pub public: bool,
    pub id: String,
}

/// The names of `ps`, in order.
pub open spec fn playlist_names(ps: Seq<SummarizedPlaylist>) -> Seq<Seq<char>> {
    ps.map_values(|p: SummarizedPlaylist| p.name@)
}

/// `names` without repeats, each kept where it first occurs.
pub open spec fn distinct(names: Seq<Seq<char>>) -> Seq<Seq<char>>
    decreases names.len(),
{
    if names.len() == 0 {
        Seq::empty()
    } else {
        let d = distinct(names.drop_last());
        if d.contains(names.last()) {
            d
        } else {
            d.push(names.last())
        }
    }
}

/// The last playlist of `ps` called `name`: a later one replaces an earlier
/// one of the same name.
pub open spec fn last_named(ps: Seq<SummarizedPlaylist>, name: Seq<char>) -> Option<
    SummarizedPlaylist,
>
    decreases ps.len(),
{
    if ps.len() == 0 {
        None
    } else if ps.last().name@ == name {
        Some(ps.last())
    } else {
        last_named(ps.drop_last(), name)
    }
}

/// For each of `names` in order, the playlist of `ps` that it names, if any.
pub open spec fn select_named(ps: Seq<SummarizedPlaylist>, names: Seq<Seq<char>>) -> Seq<
    SummarizedPlaylist,
>
    decreases names.len(),
{
    if names.len() == 0 {
        Seq::empty()
    } else {
        let r = select_named(ps, names.drop_last());
        match last_named(ps, names.last()) {
            Some(p) => r.push(p),
            None => r,
        }
    }
}

/// The names among `names` that fuzzily match `pattern`, best match first.
pub uninterp spec fn fuzzy_ranked(pattern: Seq<char>, names: Seq<Seq<char>>) -> Seq<Seq<char>>;

/// Relies on nucleo_matcher's `Pattern::new` (case ignored, smart
/// normalization, fuzzy atoms) and `Pattern::match_list`, with the matcher's
/// default configuration rather than the path-matching one, whose delimiters
/// depend on the target platform: the result depends on the pattern and the
/// names alone, holds only names that were given, and holds each given name at
/// most as often as it was given (the matches are filtered, then sorted).
#[verifier::external_body]
fn fuzzy_match_names(pattern: &str, names: &Vec<String>) -> (r: Vec<String>)
    ensures
        string_views(r@) == fuzzy_ranked(pattern@, string_views(names@)),
        forall|i: int| 0 <= i < r@.len() ==> string_views(names@).contains(#[trigger] r@[i]@),
        string_views(names@).no_duplicates() ==> string_views(r@).no_duplicates(),
{
    let mut matcher = nucleo_matcher::Matcher::new(nucleo_matcher::Config::DEFAULT);
    let pattern = Pattern::new(pattern, CaseMatching::Ignore, Normalization::Smart, AtomKind::Fuzzy);
    pattern.match_list(names.iter(), &mut matcher).into_iter().map(|m| m.0.clone()).collect()
}

impl SummarizedPlaylist {
    /// A field-by-field copy.
    pub fn copy(&self) -> (r: SummarizedPlaylist)
        ensures
            r == *self,
    {
        SummarizedPlaylist {
            name: self.name.clone(),
            total: self.total,
            public: self.public,
            id: self.id.clone(),
        }
    }
}

/// The names of `playlists` without repeats, in order of first occurrence.
pub fn distinct_names(playlists: &Vec<SummarizedPlaylist>) -> (r: Vec<String>)
    ensures
        string_views(r@) == distinct(playlist_names(playlists@)),
{
    let mut out: Vec<String> = Vec::new();
    let mut i: usize = 0;
    assert(playlist_names(playlists@).take(0) =~= Seq::<Seq<char>>::empty());
    while i < playlists.len()
        invariant
            i <= playlists@.len(),
            string_views(out@) == distinct(playlist_names(playlists@).take(i as int)),
        decreases playlists@.len() - i,
    {
        let name = &playlists[i].name;
        let mut seen = false;
        let mut j: usize = 0;
        while j < out.len()
            invariant
                j <= out@.len(),
                seen <==> string_views(out@).take(j as int).contains(name@),
            decreases out@.len() - j,
        {
            assert(string_views(out@).take(j + 1) =~= string_views(out@).take(j as int).push(
                out@[j as int]@,
            ));
            proof {
                let t = string_views(out@).take(j as int);
                let t1 = string_views(out@).take(j + 1);
                assert(t1[j as int] == out@[j as int]@);
                if t.contains(name@) {
                    let w = choose|x: int| 0 <= x < t.len() && t[x] == name@;
                    assert(t1[w] == name@);
                }
                if t1.contains(name@) && out@[j as int]@ != name@ {
                    let w = choose|x: int| 0 <= x < t1.len() && t1[x] == name@;
                    assert(t[w] == name@);
                }
            }
            if out[j] == *name {
                seen = true;
            }
            j = j + 1;
        }
        assert(string_views(out@).take(out@.len() as int) =~= string_views(out@));
        let ghost before = out@;
        assert(playlist_names(playlists@).take(i + 1).drop_last() =~= playlist_names(
            playlists@,
        ).take(i as int));
        assert(playlist_names(playlists@).take(i + 1).last() == name@);
        if !seen {
            out.push(name.clone());
            assert(string_views(out@) =~= string_views(before).push(name@));
        }
        i = i + 1;
    }
    assert(playlist_names(playlists@).take(playlists@.len() as int) =~= playlist_names(
        playlists@,
    ));
    out
}

/// The playlist of `playlists` that `name` names, the last one if several do.
fn find_named(playlists: &Vec<SummarizedPlaylist>, name: &String) -> (r: Option<
    SummarizedPlaylist,
>)
    ensures
        r == last_named(playlists@, name@),
{
    let mut k: usize = playlists.len();
    assert(playlists@.take(k as int) =~= playlists@);
    while k > 0
        invariant
            k <= playlists@.len(),
            last_named(playlists@, name@) == last_named(playlists@.take(k as int), name@),
        decreases k,
    {
        assert(playlists@.take(k as int).drop_last() =~= playlists@.take(k - 1));
        if playlists[k - 1].name == *name {
            return Some(playlists[k - 1].copy());
        }
        k = k - 1;
    }
    None
}

/// For each of `names` in order, the playlist that it names, if any.
pub fn summaries_for_names(playlists: &Vec<SummarizedPlaylist>, names: &Vec<String>) -> (r: Vec<
    SummarizedPlaylist,
>)
    ensures
        r@ == select_named(playlists@, string_views(names@)),
{
    let mut out: Vec<SummarizedPlaylist> = Vec::new();
    let mut i: usize = 0;
    assert(string_views(names@).take(0) =~= Seq::<Seq<char>>::empty());
    assert(playlists@.take(playlists@.len() as int) =~= playlists@);
    while i < names.len()
        invariant
            i <= names@.len(),
            out@ == select_named(playlists@, string_views(names@).take(i as int)),
        decreases names@.len() - i,
    {
        assert(string_views(names@).take(i + 1).drop_last() =~= string_views(names@).take(
            i as int,
        ));
        assert(string_views(names@).take(i + 1).last() == names@[i as int]@);
        match find_named(playlists, &names[i]) {
            Some(p) => out.push(p),
            None => {},
        }
        i = i + 1;
    }
    assert(string_views(names@).take(names@.len() as int) =~= string_views(names@));
    out
}

proof fn lemma_last_named(ps: Seq<SummarizedPlaylist>, name: Seq<char>)
    ensures
        last_named(ps, name) matches Some(p) ==> p.name@ == name,
        playlist_names(ps).contains(name) ==> last_named(ps, name) is Some,
    decreases ps.len(),
{
    if ps.len() > 0 {
        lemma_last_named(ps.drop_last(), name);
        let names = playlist_names(ps);
        if names.contains(name) && ps.last().name@ != name {
            let w = choose|x: int| 0 <= x < names.len() && names[x] == name;
            assert(w < ps.len() - 1);
            assert(playlist_names(ps.drop_last())[w] == name);
        }
    }
}

proof fn lemma_distinct(names: Seq<Seq<char>>)
    ensures
        distinct(names).no_duplicates(),
        forall|x: Seq<char>| #[trigger] distinct(names).contains(x) ==> names.contains(x),
    decreases names.len(),
{
    if names.len() > 0 {
        let init = names.drop_last();
        lemma_distinct(init);
        assert forall|x: Seq<char>| #[trigger] distinct(names).contains(x) implies names.contains(
            x,
        ) by {
            if distinct(init).contains(x) {
                let w = choose|k: int| 0 <= k < init.len() && init[k] == x;
                assert(names[w] == x);
            } else {
                assert(names[names.len() - 1] == x);
            }
        }
    }
}

proof fn lemma_select_named_names(ps: Seq<SummarizedPlaylist>, names: Seq<Seq<char>>)
    requires
        forall|i: int| 0 <= i < names.len() ==> playlist_names(ps).contains(#[trigger] names[i]),
    ensures
        playlist_names(select_named(ps, names)) == names,
    decreases names.len(),
{
    if names.len() > 0 {
        let init = names.drop_last();
        assert forall|i: int| 0 <= i < init.len() implies playlist_names(ps).contains(
            #[trigger] init[i],
        ) by {
            assert(init[i] == names[i]);
        }
        lemma_select_named_names(ps, init);
        assert(playlist_names(ps).contains(names[names.len() - 1]));
        lemma_last_named(ps, names.last());
        let p = last_named(ps, names.last())->Some_0;
        let prev = select_named(ps, init);
        assert(select_named(ps, names) == prev.push(p));
        assert(playlist_names(prev.push(p)) =~= playlist_names(prev).push(p.name@));
        assert(names =~= init.push(names.last()));
    }
}

/// The playlists whose names fuzzily match `name`, best match first, one per
/// name (the last of those that share it), so that no two share a name.
pub fn find_playlists(name: &str, playlists: &Vec<SummarizedPlaylist>) -> (r: Vec<
    SummarizedPlaylist,
>)
    ensures
        r@ == select_named(
            playlists@,
            fuzzy_ranked(name@, distinct(playlist_names(playlists@))),
        ),
        playlist_names(r@) == fuzzy_ranked(name@, distinct(playlist_names(playlists@))),
        playlist_names(r@).no_duplicates(),
{
    let names = distinct_names(playlists);
    let matched = fuzzy_match_names(name, &names);
    let r = summaries_for_names(playlists, &matched);
    proof {
        lemma_distinct(playlist_names(playlists@));
        let m = string_views(matched@);
        assert forall|i: int| 0 <= i < m.len() implies playlist_names(playlists@).contains(
            #[trigger] m[i],
        ) by {
            assert(m[i] == matched@[i]@);
            assert(string_views(names@).contains(matched@[i]@));
        }
        lemma_select_named_names(playlists@, m);
    }
    r
}

} // verus!
