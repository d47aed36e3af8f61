//! Evaluation of a profile against the recruiter's AI filters: each filter is
//! given the response key that the AI reports for it, the filters are ranked,
//! grouped at each `OR`, and the groups are checked against the reasons that
//! the AI returned.
use vstd::prelude::*;
use vstd::string::*;
use crate::misc::opt_view;
use crate::text::str_eq;

verus! {

#[derive(Debug, Clone, Copy, PartialEq, Eq, Structural)]
pub enum Condition {
    AND,
    OR,
}

#[derive(Debug, Clone)]
pub struct Filter {
    pub filter: String,
    pub condition: Condition,
    pub response_key: Option<String>,
}

#[derive(Debug)]
pub struct FilterGroup {
    pub filters: Vec<Filter>,
}

#[derive(Debug)]
pub struct EvaluateProfile {
    pub profile_id: String,
    pub filters: Vec<Filter>,
    pub reasons: Vec<String>,
}

/// A filter as text: its name, its condition and its response key.
pub type FilterModel = (Seq<char>, Condition, Option<Seq<char>>);

pub open spec fn model(f: Filter) -> FilterModel {
    (f.filter@, f.condition, opt_view(f.response_key))
}

pub open spec fn models(s: Seq<Filter>) -> Seq<FilterModel> {
    Seq::new(s.len(), |i: int| model(s[i]))
}

pub open spec fn group_models(gs: Seq<FilterGroup>) -> Seq<Seq<FilterModel>> {
    Seq::new(gs.len(), |i: int| models(gs[i].filters@))
}

pub open spec fn string_views(s: Seq<String>) -> Seq<Seq<char>> {
    Seq::new(s.len(), |i: int| s[i]@)
}

/// The rank of a filter name: 0 to 6 for the seven known filters, in the
/// order in which they are evaluated, and 7 for any other name.
pub open spec fn filter_index(name: Seq<char>) -> int {
    if name == "Total years of experience"@ { 0 }
    else if name == "Job title"@ { 1 }
    else if name == "Skill"@ { 2 }
    else if name == "Recent job title"@ { 3 }
    else if name == "Recent skill"@ { 4 }
    else if name == "Keyword"@ { 5 }
    else if name == "Months in current position"@ { 6 }
    else { 7 }
}

/// `filter_priority`: 1 to 7 for the known filters, `u8::MAX` for others.
pub open spec fn priority_spec(name: Seq<char>) -> u8 {
    if filter_index(name) < 7 {
        (filter_index(name) + 1) as u8
    } else {
        255
    }
}

/// The key under which the AI reports on a filter.
pub open spec fn response_key_spec(name: Seq<char>) -> Seq<char> {
    let k = filter_index(name);
    if k == 0 { "Experience level"@ }
    else if k == 1 { "Job title"@ }
    else if k == 2 { "Skill level"@ }
    else if k == 3 { "Type of experience"@ }
    else if k == 4 { "Type of skill/s"@ }
    else if k == 5 { "Keyword"@ }
    else if k == 6 { "Time in current position"@ }
    else { "Invalid filter type"@ }
}

pub open spec fn updated_model(m: FilterModel) -> FilterModel {
    (m.0, m.1, Some(response_key_spec(m.0)))
}

/// The key under which the AI reports on a filter is fixed by the filter's
/// name: "Total years of experience" is reported as "Experience level",
/// "Job title" as "Job title", "Skill" as "Skill level", "Recent job title"
/// as "Type of experience", "Recent skill" as "Type of skill/s", "Keyword"
/// as "Keyword", "Months in current position" as "Time in current
/// position", and any other name as "Invalid filter type". An updated filter
/// keeps its name and condition and carries that key.
pub proof fn law_response_key_by_name(m: FilterModel)
    ensures
        updated_model(m).0 == m.0,
        updated_model(m).1 == m.1,
        m.0 == "Total years of experience"@ ==> updated_model(m).2 == Some("Experience level"@),
        m.0 == "Job title"@ ==> updated_model(m).2 == Some("Job title"@),
        m.0 == "Skill"@ ==> updated_model(m).2 == Some("Skill level"@),
        m.0 == "Recent job title"@ ==> updated_model(m).2 == Some("Type of experience"@),
        m.0 == "Recent skill"@ ==> updated_model(m).2 == Some("Type of skill/s"@),
        m.0 == "Keyword"@ ==> updated_model(m).2 == Some("Keyword"@),
        m.0 == "Months in current position"@ ==> updated_model(m).2 == Some("Time in current position"@),
        m.0 != "Total years of experience"@ && m.0 != "Job title"@ && m.0 != "Skill"@ && m.0
            != "Recent job title"@ && m.0 != "Recent skill"@ && m.0 != "Keyword"@ && m.0
            != "Months in current position"@ ==> updated_model(m).2 == Some("Invalid filter type"@),
{
    reveal_strlit("Total years of experience");
    reveal_strlit("Job title");
    reveal_strlit("Skill");
    reveal_strlit("Recent job title");
    reveal_strlit("Recent skill");
    reveal_strlit("Keyword");
    reveal_strlit("Months in current position");
    if m.0 == "Months in current position"@ {
        assert(m.0.len() == 26);
        assert(m.0 != "Total years of experience"@);
        assert(filter_index(m.0) == 6);
    }
}

fn filter_index_exec(name: &str) -> (r: usize)
    ensures
        r as int == filter_index(name@),
{
    if str_eq(name, "Total years of experience") { 0 }
    else if str_eq(name, "Job title") { 1 }
    else if str_eq(name, "Skill") { 2 }
    else if str_eq(name, "Recent job title") { 3 }
    else if str_eq(name, "Recent skill") { 4 }
    else if str_eq(name, "Keyword") { 5 }
    else if str_eq(name, "Months in current position") { 6 }
    else { 7 }
}

/// The rank of a filter in the evaluation order; unknown filters come last.
pub fn filter_priority(filter_name: &str) -> (r: u8)
    ensures
        r == priority_spec(filter_name@),
{
    let k = filter_index_exec(filter_name);
    if k < 7 {
        (k + 1) as u8
    } else {
        u8::MAX
    }
}

impl Filter {
    /// A copy of the filter that carries the response key of its name.
    pub fn update_filter(&mut self) -> (r: Filter)
        ensures
            *final(self) == *old(self),
            r.filter == old(self).filter,
            r.condition == old(self).condition,
            model(r) == updated_model(model(*old(self))),
    {
        let k = filter_index_exec(self.filter.as_str());
        let response_key = if k == 0 {
            "Experience level"
        } else if k == 1 {
            "Job title"
        } else if k == 2 {
            "Skill level"
        } else if k == 3 {
            "Type of experience"
        } else if k == 4 {
            "Type of skill/s"
        } else if k == 5 {
            "Keyword"
        } else if k == 6 {
            "Time in current position"
        } else {
            "Invalid filter type"
        };
        Filter {
            filter: self.filter.clone(),
            condition: self.condition,
            response_key: Some(String::from_str(response_key)),
        }
    }
}

/// Every filter of the list, carrying the response key of its name.
pub fn update_list_filter(list: Vec<Filter>) -> (r: Vec<Filter>)
    ensures
        models(r@) == models(list@).map_values(|m: FilterModel| updated_model(m)),
{
    let mut new_list: Vec<Filter> = Vec::new();
    let mut i: usize = 0;
    let mut list = list;
    let ghost orig = list@;
    while i < list.len()
        invariant
            i <= list.len(),
            list@ == orig,
            models(new_list@) == models(orig.take(i as int)).map_values(
                |m: FilterModel| updated_model(m),
            ),
        decreases list.len() - i,
    {
        let ghost before = new_list@;
        let f = list[i].update_filter();
        new_list.push(f);
        i = i + 1;
        proof {
            assert(model(f) == updated_model(model(orig[i - 1])));
            assert(new_list@ =~= before.push(f));
            assert(models(orig.take(i as int)) =~= models(orig.take(i - 1)).push(
                model(orig[i - 1]),
            ));
            assert(models(new_list@) =~= models(before).push(model(f)));
            assert(models(new_list@) =~= models(orig.take(i as int)).map_values(
                |m: FilterModel| updated_model(m),
            ));
        }
    }
    assert(orig.take(orig.len() as int) =~= orig);
    new_list
}

/// The filters of `s` whose rank is `k`, in their order in `s`.
pub open spec fn bucket(s: Seq<FilterModel>, k: int) -> Seq<FilterModel>
    decreases s.len(),
{
    if s.len() == 0 {
        seq![]
    } else if filter_index(s.last().0) == k {
        bucket(s.drop_last(), k).push(s.last())
    } else {
        bucket(s.drop_last(), k)
    }
}

/// The filters of rank `k` of two lists one after the other.
proof fn lemma_bucket_concat(a: Seq<FilterModel>, b: Seq<FilterModel>, k: int)
    ensures
        bucket(a + b, k) == bucket(a, k) + bucket(b, k),
    decreases b.len(),
{
    if b.len() == 0 {
        assert(a + b =~= a);
        assert(bucket(a, k) + bucket(b, k) =~= bucket(a, k));
    } else {
        lemma_bucket_concat(a, b.drop_last(), k);
        assert((a + b).drop_last() =~= a + b.drop_last());
        assert((a + b).last() == b.last());
        if filter_index(b.last().0) == k {
            assert(bucket(a, k) + bucket(b, k) =~= (bucket(a, k) + bucket(b.drop_last(), k)).push(b.last()));
        }
    }
}

/// The filters of rank `k` among those of rank `j`.
proof fn lemma_bucket_of_bucket(s: Seq<FilterModel>, j: int, k: int)
    ensures
        bucket(bucket(s, j), k) == if j == k { bucket(s, k) } else { Seq::<FilterModel>::empty() },
    decreases s.len(),
{
    if s.len() > 0 {
        lemma_bucket_of_bucket(s.drop_last(), j, k);
        if filter_index(s.last().0) == j {
            lemma_bucket_push(bucket(s.drop_last(), j), s.last(), k);
        }
    }
}

/// The filters of rank `k` among the ranks `j` to 7, rank by rank.
proof fn lemma_bucket_of_buckets(s: Seq<FilterModel>, j: int, k: int)
    requires
        0 <= j,
    ensures
        bucket(buckets_from(s, j), k) == if j <= k < 8 { bucket(s, k) } else { Seq::<FilterModel>::empty() },
    decreases 8 - j,
{
    if j >= 8 {
        assert(buckets_from(s, j) =~= Seq::<FilterModel>::empty());
    } else {
        lemma_bucket_of_buckets(s, j + 1, k);
        lemma_bucket_concat(bucket(s, j), buckets_from(s, j + 1), k);
        lemma_bucket_of_bucket(s, j, k);
        if j == k {
            assert(bucket(s, k) + Seq::<FilterModel>::empty() =~= bucket(s, k));
        } else {
            assert(Seq::<FilterModel>::empty() + bucket(buckets_from(s, j + 1), k) =~= bucket(
                buckets_from(s, j + 1),
                k,
            ));
        }
    }
}

/// The filters of ranks `k` to 7, rank by rank.
pub open spec fn buckets_from(s: Seq<FilterModel>, k: int) -> Seq<FilterModel>
    decreases 8 - k,
{
    if k >= 8 || k < 0 {
        seq![]
    } else {
        bucket(s, k) + buckets_from(s, k + 1)
    }
}

/// The filters ordered by priority, filters of equal priority keeping their
/// order: what the stable `sort_by` of `sort_filters` yields.
pub open spec fn sorted_spec(s: Seq<FilterModel>) -> Seq<FilterModel> {
    buckets_from(s, 0)
}

proof fn lemma_bucket_push(s: Seq<FilterModel>, x: FilterModel, k: int)
    ensures
        bucket(s.push(x), k) == if filter_index(x.0) == k {
            bucket(s, k).push(x)
        } else {
            bucket(s, k)
        },
{
    assert(s.push(x).drop_last() =~= s);
}

fn push_all(dst: &mut Vec<Filter>, src: Vec<Filter>)
    ensures
        final(dst)@ == old(dst)@ + src@,
{
    let mut src = src;
    dst.append(&mut src);
}

/// Orders the filters by `filter_priority`; filters of equal priority keep
/// their order.
pub fn sort_filters(filters: &mut Vec<Filter>)
    ensures
        models(final(filters)@) == sorted_spec(models(old(filters)@)),
{
    let mut src: Vec<Filter> = Vec::new();
    std::mem::swap(&mut src, filters);
    let ghost orig = src@;
    let mut b0: Vec<Filter> = Vec::new();
    let mut b1: Vec<Filter> = Vec::new();
    let mut b2: Vec<Filter> = Vec::new();
    let mut b3: Vec<Filter> = Vec::new();
    let mut b4: Vec<Filter> = Vec::new();
    let mut b5: Vec<Filter> = Vec::new();
    let mut b6: Vec<Filter> = Vec::new();
    let mut b7: Vec<Filter> = Vec::new();
    let mut i: usize = 0;
    let n = src.len();
    while src.len() > 0
        invariant
            i <= n,
            n == orig.len(),
            src@ == orig.skip(i as int),
            models(b0@) == bucket(models(orig.take(i as int)), 0),
            models(b1@) == bucket(models(orig.take(i as int)), 1),
            models(b2@) == bucket(models(orig.take(i as int)), 2),
            models(b3@) == bucket(models(orig.take(i as int)), 3),
            models(b4@) == bucket(models(orig.take(i as int)), 4),
            models(b5@) == bucket(models(orig.take(i as int)), 5),
            models(b6@) == bucket(models(orig.take(i as int)), 6),
            models(b7@) == bucket(models(orig.take(i as int)), 7),
        decreases src.len(),
    {
        let f = src.remove(0);
        assert(f == orig[i as int]);
        let k = filter_index_exec(f.filter.as_str());
        let ghost x = model(f);
        proof {
            assert(models(orig.take(i + 1)) =~= models(orig.take(i as int)).push(x));
            lemma_bucket_push(models(orig.take(i as int)), x, 0);
            lemma_bucket_push(models(orig.take(i as int)), x, 1);
            lemma_bucket_push(models(orig.take(i as int)), x, 2);
            lemma_bucket_push(models(orig.take(i as int)), x, 3);
            lemma_bucket_push(models(orig.take(i as int)), x, 4);
            lemma_bucket_push(models(orig.take(i as int)), x, 5);
            lemma_bucket_push(models(orig.take(i as int)), x, 6);
            lemma_bucket_push(models(orig.take(i as int)), x, 7);
        }
        let ghost p0 = b0@;
        let ghost p1 = b1@;
        let ghost p2 = b2@;
        let ghost p3 = b3@;
        let ghost p4 = b4@;
        let ghost p5 = b5@;
        let ghost p6 = b6@;
        let ghost p7 = b7@;
        if k == 0 {
            b0.push(f);
            assert(models(b0@) =~= models(p0).push(x));
        } else if k == 1 {
            b1.push(f);
            assert(models(b1@) =~= models(p1).push(x));
        } else if k == 2 {
            b2.push(f);
            assert(models(b2@) =~= models(p2).push(x));
        } else if k == 3 {
            b3.push(f);
            assert(models(b3@) =~= models(p3).push(x));
        } else if k == 4 {
            b4.push(f);
            assert(models(b4@) =~= models(p4).push(x));
        } else if k == 5 {
            b5.push(f);
            assert(models(b5@) =~= models(p5).push(x));
        } else if k == 6 {
            b6.push(f);
            assert(models(b6@) =~= models(p6).push(x));
        } else {
            b7.push(f);
            assert(models(b7@) =~= models(p7).push(x));
        }
        i = i + 1;
        assert(src@ =~= orig.skip(i as int));
    }
    assert(orig.take(i as int) =~= orig);
    let ghost m = models(orig);
    let mut out: Vec<Filter> = Vec::new();
    push_all(&mut out, b0);
    push_all(&mut out, b1);
    push_all(&mut out, b2);
    push_all(&mut out, b3);
    push_all(&mut out, b4);
    push_all(&mut out, b5);
    push_all(&mut out, b6);
    push_all(&mut out, b7);
    proof {
        reveal_with_fuel(buckets_from, 9);
        assert(models(out@) =~= bucket(m, 0) + bucket(m, 1) + bucket(m, 2) + bucket(m, 3)
            + bucket(m, 4) + bucket(m, 5) + bucket(m, 6) + bucket(m, 7));
        assert(buckets_from(m, 0) =~= bucket(m, 0) + bucket(m, 1) + bucket(m, 2) + bucket(m, 3)
            + bucket(m, 4) + bucket(m, 5) + bucket(m, 6) + bucket(m, 7));
    }
    *filters = out;
}


/// The groups of `s` from index `i` on, `cur` being the group read so far: a
/// group ends after each `OR` filter, and the filters after the last `OR`
/// form the last group.
pub open spec fn groups_from<T>(s: Seq<T>, is_or: spec_fn(T) -> bool, i: int, cur: Seq<T>) -> Seq<Seq<T>>
    decreases s.len() - i,
{
    if i < 0 || i >= s.len() {
        if cur.len() > 0 {
            seq![cur]
        } else {
            seq![]
        }
    } else if is_or(s[i]) {
        seq![cur.push(s[i])] + groups_from(s, is_or, i + 1, seq![])
    } else {
        groups_from(s, is_or, i + 1, cur.push(s[i]))
    }
}

pub open spec fn model_is_or(m: FilterModel) -> bool {
    m.1 == Condition::OR
}

/// The groups that `group_filters` forms.
pub open spec fn group_spec(s: Seq<FilterModel>) -> Seq<Seq<FilterModel>> {
    groups_from(s, |m: FilterModel| model_is_or(m), 0, seq![])
}

/// Splits the filters into groups, each closed by an `OR` filter; the
/// filters after the last `OR` form the last group.
pub fn group_filters(filters: Vec<Filter>) -> (groups: Vec<FilterGroup>)
    ensures
        group_models(groups@) == group_spec(models(filters@)),
{
    let ghost orig = filters@;
    let ghost m = models(orig);
    let ghost is_or = |x: FilterModel| model_is_or(x);
    let n = filters.len();
    let mut src = filters;
    let mut groups: Vec<FilterGroup> = Vec::new();
    let mut current_group: Vec<Filter> = Vec::new();
    let mut i: usize = 0;
    assert(models(current_group@) =~= Seq::<FilterModel>::empty());
    assert(group_models(groups@) + groups_from(m, is_or, 0, models(current_group@))
        =~= group_spec(m));
    while src.len() > 0
        invariant
            i <= orig.len(),
            n == orig.len(),
            src@ == orig.skip(i as int),
            m == models(orig),
            is_or == (|x: FilterModel| model_is_or(x)),
            group_models(groups@) + groups_from(m, is_or, i as int, models(current_group@))
                == group_spec(m),
        decreases src.len(),
    {
        let filter = src.remove(0);
        assert(filter == orig[i as int]);
        assert(model(filter) == m[i as int]);
        let ghost old_groups = groups@;
        let ghost old_cur = current_group@;
        current_group.push(filter);
        assert(models(current_group@) =~= models(old_cur).push(m[i as int]));
        if let Condition::OR = current_group[current_group.len() - 1].condition {
            let mut fresh: Vec<Filter> = Vec::new();
            std::mem::swap(&mut fresh, &mut current_group);
            groups.push(FilterGroup { filters: fresh });
            proof {
                assert(group_models(groups@) =~= group_models(old_groups).push(
                    models(old_cur).push(m[i as int]),
                ));
                assert(models(current_group@) =~= Seq::<FilterModel>::empty());
                assert(group_models(old_groups) + groups_from(m, is_or, i as int, models(old_cur))
                    =~= group_models(groups@) + groups_from(m, is_or, i + 1, models(current_group@)));
            }
        }
        i = i + 1;
        assert(src@ =~= orig.skip(i as int));
    }
    if current_group.len() > 0 {
        let ghost old_groups = groups@;
        let ghost old_cur = current_group@;
        groups.push(FilterGroup { filters: current_group });
        assert(group_models(groups@) =~= group_models(old_groups) + seq![models(old_cur)]);
    } else {
        assert(group_models(groups@) + Seq::<Seq<FilterModel>>::empty() =~= group_models(groups@));
    }
    groups
}

/// Grouping keeps every filter, in order, and forms no empty group.
pub proof fn lemma_groups_partition<T>(s: Seq<T>, is_or: spec_fn(T) -> bool, i: int, cur: Seq<T>)
    requires
        0 <= i <= s.len(),
    ensures
        groups_from(s, is_or, i, cur).fold_left(Seq::<T>::empty(), |acc: Seq<T>, g: Seq<T>| acc + g)
            == cur + s.skip(i),
        forall|j: int|
            0 <= j < groups_from(s, is_or, i, cur).len() ==> #[trigger] groups_from(
                s,
                is_or,
                i,
                cur,
            )[j].len() > 0,
    decreases s.len() - i,
{
    let gs = groups_from(s, is_or, i, cur);
    let f = |acc: Seq<T>, g: Seq<T>| acc + g;
    if i >= s.len() {
        assert(s.skip(i) =~= Seq::<T>::empty());
        if cur.len() > 0 {
            assert(gs =~= seq![cur]);
            reveal_with_fuel(Seq::fold_left, 2);
            assert(gs.drop_last() =~= Seq::<Seq<T>>::empty());
            assert(cur + s.skip(i) =~= cur);
            assert(Seq::<T>::empty() + cur =~= cur);
        } else {
            assert(cur + s.skip(i) =~= Seq::<T>::empty());
        }
    } else if is_or(s[i]) {
        let rest = groups_from(s, is_or, i + 1, seq![]);
        lemma_groups_partition(s, is_or, i + 1, seq![]);
        assert(gs == seq![cur.push(s[i])] + rest);
        lemma_fold_concat_prepend(cur.push(s[i]), rest);
        assert(Seq::<T>::empty() + s.skip(i + 1) =~= s.skip(i + 1));
        assert(cur.push(s[i]) + s.skip(i + 1) =~= cur + s.skip(i));
        assert forall|j: int| 0 <= j < gs.len() implies #[trigger] gs[j].len() > 0 by {
            if j > 0 {
                assert(gs[j] == rest[j - 1]);
            }
        }
    } else {
        lemma_groups_partition(s, is_or, i + 1, cur.push(s[i]));
        assert(cur.push(s[i]) + s.skip(i + 1) =~= cur + s.skip(i));
    }
}

/// Within every group only the last filter may be an `OR` filter, and
/// every group but the last ends with one.
pub proof fn lemma_groups_or_last<T>(s: Seq<T>, is_or: spec_fn(T) -> bool, i: int, cur: Seq<T>)
    requires
        0 <= i <= s.len(),
        forall|k: int| 0 <= k < cur.len() ==> !is_or(#[trigger] cur[k]),
    ensures
        forall|j: int, k: int|
            0 <= j < groups_from(s, is_or, i, cur).len() && 0 <= k < groups_from(s, is_or, i, cur)[j].len() - 1
                ==> !is_or(#[trigger] groups_from(s, is_or, i, cur)[j][k]),
        forall|j: int|
            0 <= j < groups_from(s, is_or, i, cur).len() - 1 ==> is_or(
                #[trigger] groups_from(s, is_or, i, cur)[j].last(),
            ),
    decreases s.len() - i,
{
    let gs = groups_from(s, is_or, i, cur);
    if i >= s.len() {
        if cur.len() > 0 {
            assert(gs == seq![cur]);
            assert forall|j: int, k: int| 0 <= j < gs.len() && 0 <= k < gs[j].len() - 1 implies !is_or(
                #[trigger] gs[j][k],
            ) by {
                assert(gs[j] == cur);
            }
        } else {
            assert(gs == Seq::<Seq<T>>::empty());
        }
    } else if is_or(s[i]) {
        let rest = groups_from(s, is_or, i + 1, seq![]);
        lemma_groups_or_last(s, is_or, i + 1, seq![]);
        assert(gs == seq![cur.push(s[i])] + rest);
        assert forall|j: int, k: int| 0 <= j < gs.len() && 0 <= k < gs[j].len() - 1 implies !is_or(
            #[trigger] gs[j][k],
        ) by {
            if j == 0 {
                assert(gs[0] == cur.push(s[i]));
                assert(gs[0][k] == cur[k]);
            } else {
                assert(gs[j] == rest[j - 1]);
            }
        }
        assert forall|j: int| 0 <= j < gs.len() - 1 implies is_or(#[trigger] gs[j].last()) by {
            if j == 0 {
                assert(gs[0] == cur.push(s[i]));
            } else {
                assert(gs[j] == rest[j - 1]);
            }
        }
    } else {
        assert forall|k: int| 0 <= k < cur.push(s[i]).len() implies !is_or(#[trigger] cur.push(s[i])[k]) by {
            if k < cur.len() {
                assert(cur.push(s[i])[k] == cur[k]);
            }
        }
        lemma_groups_or_last(s, is_or, i + 1, cur.push(s[i]));
        assert(gs == groups_from(s, is_or, i + 1, cur.push(s[i])));
    }
}

/// One when the filters `t` end with a filter that is not an `OR` filter,
/// zero otherwise.
pub open spec fn open_end<T>(t: Seq<T>, is_or: spec_fn(T) -> bool) -> int {
    if t.len() > 0 && !is_or(t.last()) {
        1
    } else {
        0
    }
}

/// The groups from index `i` on: one for each `OR` filter, and one more
/// when the filters read (`cur`, then the rest) end without one.
pub proof fn lemma_groups_count<T>(s: Seq<T>, is_or: spec_fn(T) -> bool, i: int, cur: Seq<T>)
    requires
        0 <= i <= s.len(),
        forall|k: int| 0 <= k < cur.len() ==> !is_or(#[trigger] cur[k]),
    ensures
        groups_from(s, is_or, i, cur).len() == s.skip(i).filter(is_or).len() + open_end(cur + s.skip(i), is_or),
    decreases s.len() - i,
{
    if i >= s.len() {
        assert(s.skip(i) =~= Seq::<T>::empty());
        assert(cur + s.skip(i) =~= cur);
        assert(s.skip(i).filter(is_or) =~= Seq::<T>::empty());
        if cur.len() > 0 {
            assert(!is_or(cur[cur.len() - 1]));
        }
    } else {
        assert(s.skip(i) =~= seq![s[i]] + s.skip(i + 1));
        s.skip(i + 1).lemma_filter_prepend(s[i], is_or);
        if is_or(s[i]) {
            lemma_groups_count(s, is_or, i + 1, seq![]);
            assert(Seq::<T>::empty() + s.skip(i + 1) =~= s.skip(i + 1));
            if s.skip(i + 1).len() > 0 {
                assert((cur + s.skip(i)).last() == s.skip(i + 1).last());
            } else {
                assert((cur + s.skip(i)).last() == s[i]);
            }
        } else {
            assert forall|k: int| 0 <= k < cur.push(s[i]).len() implies !is_or(#[trigger] cur.push(s[i])[k]) by {
                if k < cur.len() {
                    assert(cur.push(s[i])[k] == cur[k]);
                }
            }
            lemma_groups_count(s, is_or, i + 1, cur.push(s[i]));
            assert(cur.push(s[i]) + s.skip(i + 1) =~= cur + s.skip(i));
        }
    }
}

proof fn lemma_fold_concat_prepend<T>(g: Seq<T>, rest: Seq<Seq<T>>)
    ensures
        (seq![g] + rest).fold_left(Seq::<T>::empty(), |acc: Seq<T>, x: Seq<T>| acc + x) == g
            + rest.fold_left(Seq::<T>::empty(), |acc: Seq<T>, x: Seq<T>| acc + x),
    decreases rest.len(),
{
    let f = |acc: Seq<T>, x: Seq<T>| acc + x;
    let all = seq![g] + rest;
    if rest.len() == 0 {
        assert(all =~= seq![g]);
        reveal_with_fuel(Seq::fold_left, 2);
        assert(all.drop_last() =~= Seq::<Seq<T>>::empty());
        assert(Seq::<T>::empty() + g =~= g);
        assert(g + Seq::<T>::empty() =~= g);
    } else {
        lemma_fold_concat_prepend(g, rest.drop_last());
        assert(all.drop_last() =~= seq![g] + rest.drop_last());
        assert(all.last() == rest.last());
        assert((g + rest.drop_last().fold_left(Seq::<T>::empty(), f)) + rest.last() =~= g + (
        rest.drop_last().fold_left(Seq::<T>::empty(), f) + rest.last()));
    }
}

/// Grouping the filters keeps every filter, in order, and forms no empty
/// group: the groups, read one after another, are the filters. Within a
/// group only the last filter may be an `OR` filter, and every group but
/// the last ends with one.
pub proof fn law_grouping_keeps_filters(s: Seq<FilterModel>)
    ensures
        group_spec(s).fold_left(Seq::<FilterModel>::empty(), |acc: Seq<FilterModel>, g: Seq<FilterModel>| acc + g) == s,
        forall|j: int| 0 <= j < group_spec(s).len() ==> #[trigger] group_spec(s)[j].len() > 0,
        forall|j: int, k: int|
            0 <= j < group_spec(s).len() && 0 <= k < group_spec(s)[j].len() - 1 ==> !model_is_or(
                #[trigger] group_spec(s)[j][k],
            ),
        forall|j: int| 0 <= j < group_spec(s).len() - 1 ==> model_is_or(#[trigger] group_spec(s)[j].last()),
{
    lemma_groups_partition(s, |m: FilterModel| model_is_or(m), 0, seq![]);
    lemma_groups_or_last(s, |m: FilterModel| model_is_or(m), 0, seq![]);
    assert(Seq::<FilterModel>::empty() + s.skip(0) =~= s);
}


/// Grouping forms one group for each `OR` filter, and one more when the
/// last filter is an `AND` filter.
pub proof fn law_group_count(s: Seq<FilterModel>)
    ensures
        group_spec(s).len() == s.filter(|m: FilterModel| model_is_or(m)).len() + (if s.len() > 0
            && s.last().1 == Condition::AND {
            1int
        } else {
            0int
        }),
{
    let is_or = |m: FilterModel| model_is_or(m);
    lemma_groups_count(s, is_or, 0, seq![]);
    assert(s.skip(0) =~= s);
    assert(Seq::<FilterModel>::empty() + s =~= s);
}

/// Whether a filter of the group, from the `j`-th on, has its response key
/// among the reasons; `None` when a filter without a response key is reached
/// before such a filter.
pub open spec fn group_matched_from(g: Seq<FilterModel>, reasons: Seq<Seq<char>>, j: int) -> Option<bool>
    decreases g.len() - j,
{
    if j < 0 || j >= g.len() {
        Some(false)
    } else {
        match g[j].2 {
            None => None,
            Some(k) => if reasons.contains(k) {
                Some(true)
            } else {
                group_matched_from(g, reasons, j + 1)
            },
        }
    }
}

/// The verdict of the groups from the `i`-th on: a matched last group
/// rejects the profile, an unmatched group before the last accepts it, and a
/// profile that reaches the end is accepted; `None` when a filter without a
/// response key is reached.
pub open spec fn run_from(gs: Seq<Seq<FilterModel>>, reasons: Seq<Seq<char>>, i: int) -> Option<bool>
    decreases gs.len() - i,
{
    if i < 0 || i >= gs.len() {
        Some(true)
    } else {
        match group_matched_from(gs[i], reasons, 0) {
            None => None,
            Some(true) => if i == gs.len() - 1 {
                Some(false)
            } else {
                run_from(gs, reasons, i + 1)
            },
            Some(false) => if i != gs.len() - 1 {
                Some(true)
            } else {
                run_from(gs, reasons, i + 1)
            },
        }
    }
}

pub open spec fn run_spec(gs: Seq<Seq<FilterModel>>, reasons: Seq<Seq<char>>) -> Option<bool> {
    run_from(gs, reasons, 0)
}

fn contains_string(list: &Vec<String>, key: &String) -> (r: bool)
    ensures
        r == string_views(list@).contains(key@),
{
    let mut k: usize = 0;
    while k < list.len()
        invariant
            k <= list.len(),
            forall|j: int| 0 <= j < k ==> list@[j]@ != key@,
        decreases list.len() - k,
    {
        if list[k] == *key {
            assert(string_views(list@)[k as int] == key@);
            return true;
        }
        k = k + 1;
    }
    proof {
        if string_views(list@).contains(key@) {
            let j = choose|j: int| 0 <= j < string_views(list@).len() && string_views(list@)[j] == key@;
            assert(list@[j]@ == key@);
        }
    }
    false
}

/// Whether a filter of the group has its response key among the reasons.
fn group_matches(group: &FilterGroup, reasons: &Vec<String>) -> (r: bool)
    requires
        group_matched_from(models(group.filters@), string_views(reasons@), 0) is Some,
    ensures
        Some(r) == group_matched_from(models(group.filters@), string_views(reasons@), 0),
{
    let ghost g = models(group.filters@);
    let ghost rv = string_views(reasons@);
    let mut j: usize = 0;
    while j < group.filters.len()
        invariant
            j <= group.filters.len(),
            g == models(group.filters@),
            rv == string_views(reasons@),
            group_matched_from(g, rv, 0) == group_matched_from(g, rv, j as int),
            group_matched_from(g, rv, 0) is Some,
        decreases group.filters.len() - j,
    {
        let filter = &group.filters[j];
        assert(model(*filter) == g[j as int]);
        let response_key = filter.response_key.as_ref().unwrap();
        if contains_string(reasons, response_key) {
            return true;
        }
        j = j + 1;
    }
    false
}

/// Checks the reasons that the AI gave against the filter groups: the
/// profile is rejected when the last group is matched, and accepted as soon
/// as a group before the last is not matched, or at the end.
pub fn run_evaluation(groups: Vec<FilterGroup>, reasons: Vec<String>) -> (r: bool)
    requires
        run_spec(group_models(groups@), string_views(reasons@)) is Some,
    ensures
        Some(r) == run_spec(group_models(groups@), string_views(reasons@)),
{
    let ghost gs = group_models(groups@);
    let ghost rv = string_views(reasons@);
    let mut i: usize = 0;
    while i < groups.len()
        invariant
            i <= groups.len(),
            gs == group_models(groups@),
            rv == string_views(reasons@),
            run_spec(gs, rv) == run_from(gs, rv, i as int),
            run_spec(gs, rv) is Some,
        decreases groups.len() - i,
    {
        let group = &groups[i];
        assert(models(group.filters@) == gs[i as int]);
        let group_matched = group_matches(group, &reasons);
        if group_matched {
            if i == groups.len() - 1 {
                return false;
            }
        } else {
            if i != groups.len() - 1 {
                return true;
            }
        }
        i = i + 1;
    }
    true
}

/// Every filter carries a response key.
pub open spec fn all_keyed(s: Seq<FilterModel>) -> bool {
    forall|i: int| 0 <= i < s.len() ==> (#[trigger] s[i]).2 is Some
}

proof fn lemma_bucket_keyed(s: Seq<FilterModel>, k: int)
    requires
        all_keyed(s),
    ensures
        all_keyed(bucket(s, k)),
    decreases s.len(),
{
    if s.len() > 0 {
        assert(all_keyed(s.drop_last())) by {
            assert forall|i: int| 0 <= i < s.drop_last().len() implies (#[trigger] s.drop_last()[i]).2 is Some by {
                assert(s.drop_last()[i] == s[i]);
            }
        }
        lemma_bucket_keyed(s.drop_last(), k);
    }
}

proof fn lemma_sorted_keyed(s: Seq<FilterModel>, k: int)
    requires
        all_keyed(s),
    ensures
        all_keyed(buckets_from(s, k)),
    decreases 8 - k,
{
    if 0 <= k < 8 {
        lemma_bucket_keyed(s, k);
        lemma_sorted_keyed(s, k + 1);
        let a = bucket(s, k);
        let b = buckets_from(s, k + 1);
        assert forall|i: int| 0 <= i < (a + b).len() implies (#[trigger] (a + b)[i]).2 is Some by {
            if i < a.len() {
                assert((a + b)[i] == a[i]);
            } else {
                assert((a + b)[i] == b[i - a.len()]);
            }
        }
    }
}

proof fn lemma_groups_keyed(s: Seq<FilterModel>, i: int, cur: Seq<FilterModel>)
    requires
        all_keyed(s),
        all_keyed(cur),
    ensures
        forall|j: int|
            0 <= j < group_spec_from(s, i, cur).len() ==> all_keyed(
                #[trigger] group_spec_from(s, i, cur)[j],
            ),
    decreases s.len() - i,
{
    if i < 0 || i >= s.len() {
        if cur.len() > 0 {
            assert(group_spec_from(s, i, cur) =~= seq![cur]);
        } else {
            assert(group_spec_from(s, i, cur) =~= Seq::<Seq<FilterModel>>::empty());
        }
    } else {
        let c = cur.push(s[i]);
        assert(all_keyed(c)) by {
            assert forall|k: int| 0 <= k < c.len() implies (#[trigger] c[k]).2 is Some by {
                if k < cur.len() {
                    assert(c[k] == cur[k]);
                }
            }
        }
        if model_is_or(s[i]) {
            lemma_groups_keyed(s, i + 1, seq![]);
            let rest = group_spec_from(s, i + 1, seq![]);
            assert(group_spec_from(s, i, cur) == seq![c] + rest);
            assert forall|j: int| 0 <= j < (seq![c] + rest).len() implies all_keyed(
                #[trigger] (seq![c] + rest)[j],
            ) by {
                if j > 0 {
                    assert((seq![c] + rest)[j] == rest[j - 1]);
                }
            }
        } else {
            lemma_groups_keyed(s, i + 1, c);
            assert(group_spec_from(s, i, cur) == group_spec_from(s, i + 1, c));
        }
    }
}

pub open spec fn group_spec_from(s: Seq<FilterModel>, i: int, cur: Seq<FilterModel>) -> Seq<Seq<FilterModel>> {
    groups_from(s, |m: FilterModel| model_is_or(m), i, cur)
}

proof fn lemma_matched_some(g: Seq<FilterModel>, reasons: Seq<Seq<char>>, j: int)
    requires
        all_keyed(g),
        0 <= j,
    ensures
        group_matched_from(g, reasons, j) is Some,
    decreases g.len() - j,
{
    if j < g.len() {
        assert(g[j].2 is Some);
        lemma_matched_some(g, reasons, j + 1);
    }
}

proof fn lemma_run_some(gs: Seq<Seq<FilterModel>>, reasons: Seq<Seq<char>>, i: int)
    requires
        forall|j: int| 0 <= j < gs.len() ==> all_keyed(#[trigger] gs[j]),
        0 <= i,
    ensures
        run_from(gs, reasons, i) is Some,
    decreases gs.len() - i,
{
    if i < gs.len() {
        lemma_matched_some(gs[i], reasons, 0);
        lemma_run_some(gs, reasons, i + 1);
    }
}

/// What `eval` decides: the filters given their response keys, ranked,
/// grouped, and checked against the reasons.
pub open spec fn eval_spec(filters: Seq<FilterModel>, reasons: Seq<Seq<char>>) -> Option<bool> {
    run_spec(
        group_spec(sorted_spec(filters.map_values(|m: FilterModel| updated_model(m)))),
        reasons,
    )
}

/// Whether the profile passes the recruiter's filters, given the reasons
/// that the AI returned for it.
pub fn eval(entry: EvaluateProfile) -> (r: bool)
    ensures
        Some(r) == eval_spec(models(entry.filters@), string_views(entry.reasons@)),
{
    let ghost fm = models(entry.filters@);
    let filters = entry.filters;
    let mut list = update_list_filter(filters);
    sort_filters(&mut list);
    let ghost sorted = models(list@);
    let group = group_filters(list);
    proof {
        let upd = fm.map_values(|m: FilterModel| updated_model(m));
        assert(all_keyed(upd));
        lemma_sorted_keyed(upd, 0);
        assert(all_keyed(sorted));
        assert(all_keyed(Seq::<FilterModel>::empty()));
        lemma_groups_keyed(sorted, 0, seq![]);
        assert(group_spec(sorted) == group_spec_from(sorted, 0, seq![]));
        lemma_run_some(group_models(group@), string_views(entry.reasons@), 0);
    }
    run_evaluation(group, entry.reasons)
}

proof fn lemma_bucket_rank(s: Seq<FilterModel>, k: int)
    ensures
        forall|i: int| 0 <= i < bucket(s, k).len() ==> filter_index(#[trigger] bucket(s, k)[i].0) == k,
    decreases s.len(),
{
    if s.len() > 0 {
        lemma_bucket_rank(s.drop_last(), k);
        let p = bucket(s.drop_last(), k);
        assert forall|i: int| 0 <= i < bucket(s, k).len() implies filter_index(
            #[trigger] bucket(s, k)[i].0,
        ) == k by {
            if i < p.len() {
                assert(bucket(s, k)[i] == p[i]);
            }
        }
    }
}

proof fn lemma_buckets_ordered(s: Seq<FilterModel>, k: int)
    requires
        0 <= k <= 8,
    ensures
        forall|i: int|
            0 <= i < buckets_from(s, k).len() ==> k <= filter_index(#[trigger] buckets_from(s, k)[i].0),
        forall|i: int, j: int|
            0 <= i < j < buckets_from(s, k).len() ==> filter_index(#[trigger] buckets_from(s, k)[i].0)
                <= filter_index(#[trigger] buckets_from(s, k)[j].0),
    decreases 8 - k,
{
    if k < 8 {
        lemma_buckets_ordered(s, k + 1);
        lemma_bucket_rank(s, k);
        let b = bucket(s, k);
        let r = buckets_from(s, k + 1);
        assert(buckets_from(s, k) == b + r);
        assert forall|i: int| 0 <= i < buckets_from(s, k).len() implies k <= filter_index(
            #[trigger] buckets_from(s, k)[i].0,
        ) by {
            if i < b.len() {
                assert(buckets_from(s, k)[i] == b[i]);
            } else {
                assert(buckets_from(s, k)[i] == r[i - b.len()]);
            }
        }
        assert forall|i: int, j: int| 0 <= i < j < buckets_from(s, k).len() implies filter_index(
            #[trigger] buckets_from(s, k)[i].0,
        ) <= filter_index(#[trigger] buckets_from(s, k)[j].0) by {
            if j < b.len() {
                assert(buckets_from(s, k)[i] == b[i]);
                assert(buckets_from(s, k)[j] == b[j]);
            } else if i < b.len() {
                assert(buckets_from(s, k)[i] == b[i]);
                assert(buckets_from(s, k)[j] == r[j - b.len()]);
            } else {
                assert(buckets_from(s, k)[i] == r[i - b.len()]);
                assert(buckets_from(s, k)[j] == r[j - b.len()]);
            }
        }
    }
}

proof fn lemma_buckets_empty(k: int)
    ensures
        buckets_from(Seq::<FilterModel>::empty(), k) =~= Seq::<FilterModel>::empty(),
    decreases 8 - k,
{
    if 0 <= k < 8 {
        lemma_buckets_empty(k + 1);
    }
}

proof fn lemma_buckets_push(s: Seq<FilterModel>, x: FilterModel, k: int)
    requires
        0 <= k <= 8,
    ensures
        buckets_from(s.push(x), k).to_multiset() == if k <= filter_index(x.0) {
            buckets_from(s, k).to_multiset().insert(x)
        } else {
            buckets_from(s, k).to_multiset()
        },
    decreases 8 - k,
{
    broadcast use vstd::seq_lib::group_to_multiset_ensures;
    if k < 8 {
        lemma_buckets_push(s, x, k + 1);
        lemma_bucket_push(s, x, k);
        vstd::seq_lib::lemma_multiset_commutative(bucket(s.push(x), k), buckets_from(s.push(x), k + 1));
        vstd::seq_lib::lemma_multiset_commutative(bucket(s, k), buckets_from(s, k + 1));
        assert(buckets_from(s.push(x), k).to_multiset() =~= (if k <= filter_index(x.0) {
            buckets_from(s, k).to_multiset().insert(x)
        } else {
            buckets_from(s, k).to_multiset()
        }));
    }
}

proof fn lemma_sorted_multiset(s: Seq<FilterModel>)
    ensures
        sorted_spec(s).to_multiset() == s.to_multiset(),
    decreases s.len(),
{
    broadcast use vstd::seq_lib::group_to_multiset_ensures;
    if s.len() == 0 {
        lemma_buckets_empty(0);
        assert(s =~= Seq::<FilterModel>::empty());
    } else {
        let t = s.drop_last();
        lemma_sorted_multiset(t);
        lemma_buckets_push(t, s.last(), 0);
        assert(t.push(s.last()) =~= s);
    }
}

/// Sorting the filters keeps every filter, as many times as it occurs, and
/// orders them by rank: no filter comes after one of a higher rank. The
/// sort is stable: the filters of each rank keep their order.
pub proof fn law_sorting_orders_and_keeps_filters(s: Seq<FilterModel>)
    ensures
        sorted_spec(s).to_multiset() == s.to_multiset(),
        forall|i: int, j: int|
            0 <= i < j < sorted_spec(s).len() ==> filter_index(#[trigger] sorted_spec(s)[i].0)
                <= filter_index(#[trigger] sorted_spec(s)[j].0),
        forall|k: int| 0 <= k < 8 ==> #[trigger] bucket(sorted_spec(s), k) == bucket(s, k),
{
    lemma_sorted_multiset(s);
    lemma_buckets_ordered(s, 0);
    assert forall|k: int| 0 <= k < 8 implies #[trigger] bucket(sorted_spec(s), k) == bucket(s, k) by {
        lemma_bucket_of_buckets(s, 0, k);
    }
}

/// A group is matched when one of its filters names a reason that the
/// profile analysis gave.
pub open spec fn group_matched(g: Seq<FilterModel>, reasons: Seq<Seq<char>>) -> bool {
    exists|k: int| 0 <= k < g.len() && (#[trigger] g[k]).2 is Some && reasons.contains(g[k].2->0)
}

/// Every filter of every group has its response key.
pub open spec fn groups_keyed(gs: Seq<Seq<FilterModel>>) -> bool {
    forall|i: int, k: int| 0 <= i < gs.len() && 0 <= k < gs[i].len() ==> (#[trigger] gs[i][k]).2 is Some
}

proof fn lemma_group_matched_from(g: Seq<FilterModel>, reasons: Seq<Seq<char>>, j: int)
    requires
        0 <= j <= g.len(),
        forall|k: int| 0 <= k < g.len() ==> (#[trigger] g[k]).2 is Some,
    ensures
        group_matched_from(g, reasons, j) == Some(exists|k: int|
            j <= k < g.len() && (#[trigger] g[k]).2 is Some && reasons.contains(g[k].2->0)),
    decreases g.len() - j,
{
    if j < g.len() {
        lemma_group_matched_from(g, reasons, j + 1);
        if reasons.contains(g[j].2->0) {
            assert(j <= j < g.len() && g[j].2 is Some && reasons.contains(g[j].2->0));
        }
    }
}

proof fn lemma_run_from(gs: Seq<Seq<FilterModel>>, reasons: Seq<Seq<char>>, i: int)
    requires
        0 <= i <= gs.len(),
        groups_keyed(gs),
    ensures
        run_from(gs, reasons, i) == Some(!(i < gs.len() && forall|m: int|
            i <= m < gs.len() ==> group_matched(#[trigger] gs[m], reasons))),
    decreases gs.len() - i,
{
    if i < gs.len() {
        let g = gs[i];
        assert forall|k: int| 0 <= k < g.len() implies (#[trigger] g[k]).2 is Some by {
            assert(gs[i][k] == g[k]);
        }
        lemma_group_matched_from(g, reasons, 0);
        lemma_run_from(gs, reasons, i + 1);
        if !group_matched(g, reasons) {
            assert(!(forall|m: int| i <= m < gs.len() ==> group_matched(#[trigger] gs[m], reasons)));
        } else {
            if i == gs.len() - 1 {
                assert forall|m: int| i <= m < gs.len() implies group_matched(#[trigger] gs[m], reasons) by {
                    assert(m == i);
                }
            } else {
                if forall|m: int| i + 1 <= m < gs.len() ==> group_matched(#[trigger] gs[m], reasons) {
                    assert forall|m: int| i <= m < gs.len() implies group_matched(#[trigger] gs[m], reasons) by {
                        if m > i {
                        }
                    }
                }
            }
        }
    }
}

/// When every filter has its response key, the evaluation rejects the
/// profile exactly when there are groups and every group is matched: one
/// of its filters names a reason the analysis gave.
pub proof fn law_evaluation_rejects_when_every_group_matches(gs: Seq<Seq<FilterModel>>, reasons: Seq<Seq<char>>)
    requires
        groups_keyed(gs),
    ensures
        run_spec(gs, reasons) == Some(!(gs.len() > 0 && forall|m: int|
            0 <= m < gs.len() ==> group_matched(#[trigger] gs[m], reasons))),
{
    lemma_run_from(gs, reasons, 0);
}

} // verus!
