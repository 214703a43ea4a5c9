use vstd::prelude::*;

use crate::query::FilterOptions;
use crate::text::{opt_str, strs};

verus! {

/// What `str::to_lowercase` gives for a text.
pub uninterp spec fn lowercase(s: Seq<char>) -> Seq<char>;

/// `str::to_lowercase`: the text in lower case (see [`lowercase`]).
#[verifier::external_body]
fn to_lower(s: &str) -> (r: String)
    ensures
        r@ == lowercase(s@),
{
    s.to_lowercase()
}

/// One text condition of a filter and the values of a paper that it is
/// compared with: the paper's score for the condition is the best similarity
/// of the query to one of the values (none at all scores zero).
pub struct SimilarityGroup {
    pub query: String,
    pub candidates: Vec<String>,
}

/// The mathematical content of a [`SimilarityGroup`].
pub struct SimilarityGroupView {
    pub query: Seq<char>,
    pub candidates: Seq<Seq<char>>,
}

impl View for SimilarityGroup {
    type V = SimilarityGroupView;

    open spec fn view(&self) -> SimilarityGroupView {
        SimilarityGroupView { query: self.query@, candidates: strs(self.candidates@) }
    }
}

/// The views of a sequence of groups.
pub open spec fn groups_view(v: Seq<SimilarityGroup>) -> Seq<SimilarityGroupView> {
    v.map_values(|g: SimilarityGroup| g@)
}

/// Each text in lower case.
pub open spec fn lower_all(v: Seq<Seq<char>>) -> Seq<Seq<char>> {
    v.map_values(|s: Seq<char>| lowercase(s))
}

/// An optional text, or the empty text.
pub open spec fn text_or_empty(o: Option<Seq<char>>) -> Seq<char> {
    match o {
        Some(s) => s,
        None => Seq::empty(),
    }
}

/// A group for the condition `q`, when it is given.
pub open spec fn group_if(q: Option<Seq<char>>, values: Seq<Seq<char>>) -> Seq<SimilarityGroupView> {
    match q {
        None => Seq::empty(),
        Some(s) => seq![SimilarityGroupView { query: lowercase(s), candidates: lower_all(values) }],
    }
}

/// The text conditions of a filter in the order title, author, keyword,
/// field, venue, each with the paper's values it is compared with, all in
/// lower case: the title, the authors, the tags and then the research tasks,
/// the fields of study, the venue (a missing title or venue is the empty
/// text).
pub open spec fn similarity_groups_spec(
    opts: FilterOptions,
    title: Option<Seq<char>>,
    venue: Option<Seq<char>>,
    authors: Seq<Seq<char>>,
    tags: Seq<Seq<char>>,
    research_tasks: Seq<Seq<char>>,
    fields_of_study: Seq<Seq<char>>,
) -> Seq<SimilarityGroupView> {
    group_if(opt_str(opts.title), seq![text_or_empty(title)]) + group_if(
        opt_str(opts.author),
        authors,
    ) + group_if(opt_str(opts.keyword), tags + research_tasks) + group_if(
        opt_str(opts.field),
        fields_of_study,
    ) + group_if(opt_str(opts.venue), seq![text_or_empty(venue)])
}

/// Lower-cases each value.
fn lower_list(values: &[String]) -> (r: Vec<String>)
    ensures
        strs(r@) == lower_all(strs(values@)),
{
    let mut r: Vec<String> = Vec::new();
    let mut i: usize = 0;
    while i < values.len()
        invariant
            i <= values@.len(),
            strs(r@) == lower_all(strs(values@)).take(i as int),
        decreases values.len() - i,
    {
        let ghost before = r@;
        r.push(to_lower(values[i].as_str()));
        proof {
            crate::text::lemma_strs_push(before, r@.last());
            assert(lower_all(strs(values@)).take(i + 1) =~= lower_all(strs(values@)).take(
                i as int,
            ).push(lowercase(values@[i as int]@)));
        }
        i = i + 1;
    }
    assert(lower_all(strs(values@)).take(values.len() as int) =~= lower_all(strs(values@)));
    r
}

fn push_group(out: &mut Vec<SimilarityGroup>, query: &Option<String>, values: Vec<String>)
    ensures
        groups_view(final(out)@) == groups_view(old(out)@) + group_if(
            opt_str(*query),
            strs(values@),
        ),
{
    match query {
        None => {
            assert(groups_view(out@) =~= groups_view(old(out)@) + Seq::<
                SimilarityGroupView,
            >::empty());
        },
        Some(q) => {
            let g = SimilarityGroup {
                query: to_lower(q.as_str()),
                candidates: lower_list(values.as_slice()),
            };
            out.push(g);
            assert(groups_view(out@) =~= groups_view(old(out)@) + group_if(
                opt_str(*query),
                strs(values@),
            ));
        },
    }
}

fn one_value(o: &Option<String>) -> (v: Vec<String>)
    ensures
        strs(v@) == seq![text_or_empty(opt_str(*o))],
{
    let mut v: Vec<String> = Vec::new();
    match o {
        Some(s) => v.push(s.clone()),
        None => v.push(String::new()),
    }
    assert(strs(v@) =~= seq![text_or_empty(opt_str(*o))]);
    v
}

fn copy_list(values: &[String]) -> (r: Vec<String>)
    ensures
        strs(r@) == strs(values@),
{
    let mut r: Vec<String> = Vec::new();
    let mut i: usize = 0;
    while i < values.len()
        invariant
            i <= values@.len(),
            strs(r@) == strs(values@).take(i as int),
        decreases values.len() - i,
    {
        let ghost before = r@;
        r.push(values[i].clone());
        proof {
            crate::text::lemma_strs_push(before, r@.last());
            assert(strs(values@).take(i + 1) =~= strs(values@).take(i as int).push(
                values@[i as int]@,
            ));
        }
        i = i + 1;
    }
    assert(strs(values@).take(values.len() as int) =~= strs(values@));
    r
}

/// The text conditions of a filter with the values of a paper that each is
/// compared with (see [`similarity_groups_spec`]).
pub fn similarity_groups(
    opts: &FilterOptions,
    title: &Option<String>,
    venue: &Option<String>,
    authors: &[String],
    tags: &[String],
    research_tasks: &[String],
    fields_of_study: &[String],
) -> (r: Vec<SimilarityGroup>)
    ensures
        groups_view(r@) == similarity_groups_spec(
            *opts,
            opt_str(*title),
            opt_str(*venue),
            strs(authors@),
            strs(tags@),
            strs(research_tasks@),
            strs(fields_of_study@),
        ),
{
    let mut r: Vec<SimilarityGroup> = Vec::new();
    assert(groups_view(r@) =~= Seq::<SimilarityGroupView>::empty());
    push_group(&mut r, &opts.title, one_value(title));
    push_group(&mut r, &opts.author, copy_list(authors));
    let mut both = copy_list(tags);
    let tasks = copy_list(research_tasks);
    let ghost tv = strs(both@);
    let mut i: usize = 0;
    while i < tasks.len()
        invariant
            i <= tasks@.len(),
            strs(both@) == tv + strs(tasks@).take(i as int),
        decreases tasks.len() - i,
    {
        let ghost before = both@;
        both.push(tasks[i].clone());
        proof {
            crate::text::lemma_strs_push(before, both@.last());
            assert(strs(tasks@).take(i + 1) =~= strs(tasks@).take(i as int).push(
                tasks@[i as int]@,
            ));
        }
        i = i + 1;
    }
    assert(strs(tasks@).take(tasks.len() as int) =~= strs(tasks@));
    push_group(&mut r, &opts.keyword, both);
    push_group(&mut r, &opts.field, copy_list(fields_of_study));
    push_group(&mut r, &opts.venue, one_value(venue));
    r
}

// ---------------------------------------------------------------------------
// Laws
// ---------------------------------------------------------------------------

/// One if the condition is given.
pub open spec fn given(q: Option<Seq<char>>) -> int {
    if q is Some {
        1
    } else {
        0
    }
}

/// Each given text condition is compared, in lower case, with the paper's own
/// values for it: the title with the title, the author with the authors, the
/// keyword with the tags and the research tasks, the field with the fields of
/// study, the venue with the venue; there is one group per given condition.
pub proof fn law_groups_match_conditions(
    opts: FilterOptions,
    title: Option<Seq<char>>,
    venue: Option<Seq<char>>,
    authors: Seq<Seq<char>>,
    tags: Seq<Seq<char>>,
    research_tasks: Seq<Seq<char>>,
    fields_of_study: Seq<Seq<char>>,
)
    ensures
        ({
            let g = similarity_groups_spec(
                opts,
                title,
                venue,
                authors,
                tags,
                research_tasks,
                fields_of_study,
            );
            &&& g.len() == given(opt_str(opts.title)) + given(opt_str(opts.author)) + given(
                opt_str(opts.keyword),
            ) + given(opt_str(opts.field)) + given(opt_str(opts.venue))
            &&& opt_str(opts.title) matches Some(q) ==> g.contains(
                SimilarityGroupView {
                    query: lowercase(q),
                    candidates: seq![lowercase(text_or_empty(title))],
                },
            )
            &&& opt_str(opts.author) matches Some(q) ==> g.contains(
                SimilarityGroupView { query: lowercase(q), candidates: lower_all(authors) },
            )
            &&& opt_str(opts.keyword) matches Some(q) ==> g.contains(
                SimilarityGroupView {
                    query: lowercase(q),
                    candidates: lower_all(tags) + lower_all(research_tasks),
                },
            )
            &&& opt_str(opts.field) matches Some(q) ==> g.contains(
                SimilarityGroupView { query: lowercase(q), candidates: lower_all(fields_of_study) },
            )
            &&& opt_str(opts.venue) matches Some(q) ==> g.contains(
                SimilarityGroupView {
                    query: lowercase(q),
                    candidates: seq![lowercase(text_or_empty(venue))],
                },
            )
        }),
{
    let g1 = group_if(opt_str(opts.title), seq![text_or_empty(title)]);
    let g2 = group_if(opt_str(opts.author), authors);
    let g3 = group_if(opt_str(opts.keyword), tags + research_tasks);
    let g4 = group_if(opt_str(opts.field), fields_of_study);
    let g5 = group_if(opt_str(opts.venue), seq![text_or_empty(venue)]);
    let g = similarity_groups_spec(opts, title, venue, authors, tags, research_tasks, fields_of_study);
    assert(g == g1 + g2 + g3 + g4 + g5);
    assert(lower_all(seq![text_or_empty(title)]) =~= seq![lowercase(text_or_empty(title))]);
    assert(lower_all(seq![text_or_empty(venue)]) =~= seq![lowercase(text_or_empty(venue))]);
    assert(lower_all(tags + research_tasks) =~= lower_all(tags) + lower_all(research_tasks));
    let n1 = g1.len() as int;
    let n2 = g2.len() as int;
    let n3 = g3.len() as int;
    let n4 = g4.len() as int;
    if g1.len() > 0 {
        assert(g[0] == g1[0]);
    }
    if g2.len() > 0 {
        assert(g[n1] == g2[0]);
    }
    if g3.len() > 0 {
        assert(g[n1 + n2] == g3[0]);
    }
    if g4.len() > 0 {
        assert(g[n1 + n2 + n3] == g4[0]);
    }
    if g5.len() > 0 {
        assert(g[n1 + n2 + n3 + n4] == g5[0]);
    }
}

} // verus!
