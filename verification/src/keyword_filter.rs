//! Keyword filters: whether the sections of a LinkedIn profile contain, or
//! do not contain, given keywords, the filters combined with `AND` and `OR`.
use vstd::prelude::*;
use vstd::string::*;
use crate::evaluate::{groups_from, string_views};
use crate::misc::opt_view;
use crate::text::{
    chars_of, contains, contains_chars, lowercase, split, split_chars, str_eq, string_from_chars,
    to_lowercase, trim, trim_chars, views,
};

verus! {

#[derive(Debug, Clone, Copy, PartialEq, Eq, Structural)]
pub enum LinkedinSections {
    AnyLinkedinProfileSection,
    Headline,
    CurrentPosition,
    Education,
    Summary,
    Experience,
    Skills,
    Organizations,
}

#[derive(Debug, Clone, Copy, PartialEq, Eq, Structural)]
pub enum InclusionIndicator {
    IsContained,
    NotContained,
}

#[derive(Debug, Clone, Copy, PartialEq, Eq, Structural)]
pub enum Condition {
    AND,
    OR,
}

#[derive(Debug)]
pub struct LinkedinSection {
    pub text: Option<String>,
    pub linkedin_sections: LinkedinSections,
}

#[derive(Debug)]
pub struct ResponseData {
    pub sections: Vec<LinkedinSection>,
}

#[derive(Debug)]
pub struct Response {
    pub status: String,
    pub response: ResponseData,
}

#[derive(Debug)]
pub struct Filters {
    pub keywords: Vec<String>,
    pub linkedin_sections: Vec<LinkedinSections>,
    pub inclusion_indicator: InclusionIndicator,
    pub condition: Condition,
}

#[derive(Debug)]
pub struct EntryKeyword {
    pub filters: Vec<Filters>,
    pub linkedin_sections: Response,
}

#[derive(Debug)]
pub struct FilterGroup {
    pub filters: Vec<Filters>,
}

/// The section that a name denotes, as the profile analysis names them.
pub open spec fn section_of(s: Seq<char>) -> Option<LinkedinSections> {
    if s == "Any LinkedIn profile section"@ { Some(LinkedinSections::AnyLinkedinProfileSection) }
    else if s == "Headline"@ { Some(LinkedinSections::Headline) }
    else if s == "Current position"@ { Some(LinkedinSections::CurrentPosition) }
    else if s == "Education"@ { Some(LinkedinSections::Education) }
    else if s == "Summary"@ { Some(LinkedinSections::Summary) }
    else if s == "Experience"@ { Some(LinkedinSections::Experience) }
    else if s == "Skills"@ { Some(LinkedinSections::Skills) }
    else if s == "Organizations"@ { Some(LinkedinSections::Organizations) }
    else { None }
}

/// The message of an unknown section name.
pub open spec fn unknown_section_message(s: Seq<char>) -> Seq<char> {
    "Unknown LinkedIn section: "@ + s
}

/// The section that a name denotes, or the message for an unknown name.
pub fn section_from_str(s: &str) -> (r: Result<LinkedinSections, String>)
    ensures
        match section_of(s@) {
            Some(sec) => r == Ok::<LinkedinSections, String>(sec),
            None => r matches Err(m) && m@ == unknown_section_message(s@),
        },
{
    if str_eq(s, "Any LinkedIn profile section") {
        Ok(LinkedinSections::AnyLinkedinProfileSection)
    } else if str_eq(s, "Headline") {
        Ok(LinkedinSections::Headline)
    } else if str_eq(s, "Current position") {
        Ok(LinkedinSections::CurrentPosition)
    } else if str_eq(s, "Education") {
        Ok(LinkedinSections::Education)
    } else if str_eq(s, "Summary") {
        Ok(LinkedinSections::Summary)
    } else if str_eq(s, "Experience") {
        Ok(LinkedinSections::Experience)
    } else if str_eq(s, "Skills") {
        Ok(LinkedinSections::Skills)
    } else if str_eq(s, "Organizations") {
        Ok(LinkedinSections::Organizations)
    } else {
        Err(String::from_str("Unknown LinkedIn section: ").concat(s))
    }
}

impl std::str::FromStr for LinkedinSections {
    type Err = String;

    fn from_str(s: &str) -> (r: Result<Self, Self::Err>)
        ensures
            match section_of(s@) {
                Some(sec) => r == Ok::<LinkedinSections, String>(sec),
                None => r matches Err(m) && m@ == unknown_section_message(s@),
            },
    {
        section_from_str(s)
    }
}

/// The keywords of a comma-separated list, each trimmed.
pub open spec fn keywords_spec(value: Seq<char>) -> Seq<Seq<char>> {
    split(value, seq![',']).map_values(|p: Seq<char>| trim(p))
}

/// The keywords of a comma-separated list, each trimmed (a filter's
/// `keywords` field).
pub fn parse_keywords(value: &str) -> (r: Vec<String>)
    ensures
        string_views(r@) == keywords_spec(value@),
{
    let v = chars_of(value);
    let comma = vec![','];
    assert(comma@ =~= seq![',']);
    let parts = split_chars(v.as_slice(), comma.as_slice());
    let ghost pv = views(parts@);
    let mut out: Vec<String> = Vec::new();
    let mut i: usize = 0;
    while i < parts.len()
        invariant
            i <= parts.len(),
            pv == views(parts@),
            pv == split(value@, seq![',']),
            string_views(out@) == pv.take(i as int).map_values(|p: Seq<char>| trim(p)),
        decreases parts.len() - i,
    {
        let t = trim_chars(parts[i].as_slice());
        let ghost before = out@;
        out.push(string_from_chars(t.as_slice()));
        proof {
            assert(parts@[i as int]@ == pv[i as int]);
            assert(string_views(out@) =~= string_views(before).push(trim(pv[i as int])));
            assert(pv.take(i + 1).map_values(|p: Seq<char>| trim(p)) =~= pv.take(i as int).map_values(
                |p: Seq<char>| trim(p),
            ).push(trim(pv[i as int])));
        }
        i = i + 1;
    }
    assert(pv.take(pv.len() as int) =~= pv);
    out
}

/// The sections of a comma-separated list of section names, or the message
/// of the first unknown name.
pub open spec fn sections_from(ps: Seq<Seq<char>>, i: int) -> Result<Seq<LinkedinSections>, Seq<char>>
    decreases ps.len() - i,
{
    if i < 0 || i >= ps.len() {
        Ok(seq![])
    } else {
        match section_of(trim(ps[i])) {
            None => Err(unknown_section_message(trim(ps[i]))),
            Some(s) => match sections_from(ps, i + 1) {
                Ok(rest) => Ok(seq![s] + rest),
                Err(m) => Err(m),
            },
        }
    }
}

pub open spec fn sections_spec(value: Seq<char>) -> Result<Seq<LinkedinSections>, Seq<char>> {
    sections_from(split(value, seq![',']), 0)
}

/// The sections of a comma-separated list of section names (a filter's
/// `linkedin_sections` field), or the message of the first unknown name.
pub fn parse_linkedin_sections(value: &str) -> (r: Result<Vec<LinkedinSections>, String>)
    ensures
        match sections_spec(value@) {
            Ok(v) => r matches Ok(x) && x@ == v,
            Err(m) => r matches Err(e) && e@ == m,
        },
{
    let v = chars_of(value);
    let comma = vec![','];
    assert(comma@ =~= seq![',']);
    let parts = split_chars(v.as_slice(), comma.as_slice());
    let ghost pv = views(parts@);
    let mut out: Vec<LinkedinSections> = Vec::new();
    let mut i: usize = 0;
    while i < parts.len()
        invariant
            i <= parts.len(),
            pv == views(parts@),
            pv == split(value@, seq![',']),
            sections_from(pv, 0) == match sections_from(pv, i as int) {
                Ok(rest) => Ok(out@ + rest),
                Err(m) => Err(m),
            },
        decreases parts.len() - i,
    {
        let t = trim_chars(parts[i].as_slice());
        assert(parts@[i as int]@ == pv[i as int]);
        let name = string_from_chars(t.as_slice());
        match section_from_str(name.as_str()) {
            Ok(s) => {
                let ghost before = out@;
                out.push(s);
                proof {
                    match sections_from(pv, i + 1) {
                        Ok(rest) => {
                            assert(before + (seq![s] + rest) =~= out@ + rest);
                        },
                        Err(m) => {},
                    }
                }
            },
            Err(m) => {
                return Err(m);
            },
        }
        i = i + 1;
    }
    assert(out@ + Seq::<LinkedinSections>::empty() =~= out@);
    Ok(out)
}

/// A keyword filter as text.
pub type FiltersModel = (Seq<Seq<char>>, Seq<LinkedinSections>, InclusionIndicator, Condition);

/// A profile section as text.
pub type SectionModel = (Option<Seq<char>>, LinkedinSections);

pub open spec fn filters_model(f: Filters) -> FiltersModel {
    (string_views(f.keywords@), f.linkedin_sections@, f.inclusion_indicator, f.condition)
}

pub open spec fn filters_models(s: Seq<Filters>) -> Seq<FiltersModel> {
    Seq::new(s.len(), |i: int| filters_model(s[i]))
}

pub open spec fn section_model(s: LinkedinSection) -> SectionModel {
    (opt_view(s.text), s.linkedin_sections)
}

pub open spec fn section_models(s: Seq<LinkedinSection>) -> Seq<SectionModel> {
    Seq::new(s.len(), |i: int| section_model(s[i]))
}

pub open spec fn keyword_group_models(gs: Seq<FilterGroup>) -> Seq<Seq<FiltersModel>> {
    Seq::new(gs.len(), |i: int| filters_models(gs[i].filters@))
}

/// The first profile section of the given kind.
pub open spec fn find_section_from(secs: Seq<SectionModel>, kind: LinkedinSections, i: int) -> Option<int>
    decreases secs.len() - i,
{
    if i < 0 || i >= secs.len() {
        None
    } else if secs[i].1 == kind {
        Some(i)
    } else {
        find_section_from(secs, kind, i + 1)
    }
}

/// Some keyword occurs in the text, both taken in lowercase.
pub open spec fn keywords_present(keywords: Seq<Seq<char>>, text: Option<Seq<char>>) -> bool {
    let t = match text {
        Some(t) => t,
        None => seq![],
    };
    exists|k: int| 0 <= k < keywords.len() && contains(lowercase(t), lowercase(#[trigger] keywords[k]))
}

/// Each section that the filter names is present in the profile, and
/// contains a keyword exactly when the filter asks that it be contained.
pub open spec fn filter_matched(f: FiltersModel, secs: Seq<SectionModel>) -> bool {
    forall|j: int|
        0 <= j < f.1.len() ==> match find_section_from(secs, #[trigger] f.1[j], 0) {
            None => false,
            Some(i) => {
                let present = keywords_present(f.0, secs[i].0);
                !((f.2 == InclusionIndicator::IsContained && !present) || (f.2
                    == InclusionIndicator::NotContained && present))
            },
        }
}

/// The scan of a group's filters from the `j`-th on: whether every `AND`
/// filter matched (the scan stops at the first that does not) and whether an
/// `OR` filter matched.
pub open spec fn scan_group(fs: Seq<FiltersModel>, secs: Seq<SectionModel>, j: int, all: bool, any: bool) -> (bool, bool)
    decreases fs.len() - j,
{
    if j < 0 || j >= fs.len() {
        (all, any)
    } else if fs[j].3 == Condition::AND {
        if !filter_matched(fs[j], secs) {
            (false, any)
        } else {
            scan_group(fs, secs, j + 1, all, any)
        }
    } else {
        scan_group(fs, secs, j + 1, all, any || filter_matched(fs[j], secs))
    }
}

/// A group holds when its first filter is `AND` and all its `AND` filters
/// match, or its first filter is `OR` and one of its `OR` filters matches.
pub open spec fn group_holds(fs: Seq<FiltersModel>, secs: Seq<SectionModel>) -> bool {
    let (all, any) = scan_group(fs, secs, 0, true, false);
    (fs[0].3 == Condition::AND && all) || (fs[0].3 == Condition::OR && any)
}

/// The first group that holds.
pub open spec fn first_holding_from(gs: Seq<Seq<FiltersModel>>, secs: Seq<SectionModel>, i: int) -> Option<int>
    decreases gs.len() - i,
{
    if i < 0 || i >= gs.len() {
        None
    } else if group_holds(gs[i], secs) {
        Some(i)
    } else {
        first_holding_from(gs, secs, i + 1)
    }
}

pub open spec fn keyword_is_or(m: FiltersModel) -> bool {
    m.3 == Condition::OR
}

/// The groups that `group_filters` forms: each closed by an `OR` filter.
pub open spec fn keyword_group_spec(s: Seq<FiltersModel>) -> Seq<Seq<FiltersModel>> {
    groups_from(s, |m: FiltersModel| keyword_is_or(m), 0, seq![])
}

/// Splits the filters into groups, each closed by an `OR` filter; the
/// filters after the last `OR` form the last group.
pub fn group_filters(filters: Vec<Filters>) -> (groups: Vec<FilterGroup>)
    ensures
        keyword_group_models(groups@) == keyword_group_spec(filters_models(filters@)),
{
    let ghost orig = filters@;
    let ghost m = filters_models(orig);
    let ghost is_or = |x: FiltersModel| keyword_is_or(x);
    let n = filters.len();
    let mut src = filters;
    let mut groups: Vec<FilterGroup> = Vec::new();
    let mut current_group: Vec<Filters> = Vec::new();
    let mut i: usize = 0;
    assert(filters_models(current_group@) =~= Seq::<FiltersModel>::empty());
    assert(keyword_group_models(groups@) + groups_from(m, is_or, 0, filters_models(current_group@))
        =~= keyword_group_spec(m));
    while src.len() > 0
        invariant
            i <= orig.len(),
            n == orig.len(),
            src@ == orig.skip(i as int),
            m == filters_models(orig),
            is_or == (|x: FiltersModel| keyword_is_or(x)),
            keyword_group_models(groups@) + groups_from(m, is_or, i as int, filters_models(current_group@))
                == keyword_group_spec(m),
        decreases src.len(),
    {
        let filter = src.remove(0);
        assert(filter == orig[i as int]);
        assert(filters_model(filter) == m[i as int]);
        let ghost old_groups = groups@;
        let ghost old_cur = current_group@;
        current_group.push(filter);
        assert(filters_models(current_group@) =~= filters_models(old_cur).push(m[i as int]));
        if let Condition::OR = current_group[current_group.len() - 1].condition {
            let mut fresh: Vec<Filters> = Vec::new();
            std::mem::swap(&mut fresh, &mut current_group);
            groups.push(FilterGroup { filters: fresh });
            proof {
                assert(keyword_group_models(groups@) =~= keyword_group_models(old_groups).push(
                    filters_models(old_cur).push(m[i as int]),
                ));
                assert(filters_models(current_group@) =~= Seq::<FiltersModel>::empty());
                assert(keyword_group_models(old_groups) + groups_from(m, is_or, i as int, filters_models(old_cur))
                    =~= keyword_group_models(groups@) + groups_from(m, is_or, i + 1, filters_models(current_group@)));
            }
        }
        i = i + 1;
        assert(src@ =~= orig.skip(i as int));
    }
    if current_group.len() > 0 {
        let ghost old_groups = groups@;
        let ghost old_cur = current_group@;
        groups.push(FilterGroup { filters: current_group });
        assert(keyword_group_models(groups@) =~= keyword_group_models(old_groups) + seq![filters_models(old_cur)]);
    } else {
        assert(keyword_group_models(groups@) + Seq::<Seq<FiltersModel>>::empty() =~= keyword_group_models(groups@));
    }
    groups
}

fn find_section(sections: &Vec<LinkedinSection>, kind: LinkedinSections) -> (r: Option<usize>)
    ensures
        match r {
            Some(i) => i < sections@.len() && find_section_from(section_models(sections@), kind, 0)
                == Some(i as int),
            None => find_section_from(section_models(sections@), kind, 0) is None,
        },
{
    let ghost secs = section_models(sections@);
    let mut i: usize = 0;
    while i < sections.len()
        invariant
            i <= sections.len(),
            secs == section_models(sections@),
            find_section_from(secs, kind, 0) == find_section_from(secs, kind, i as int),
        decreases sections.len() - i,
    {
        assert(secs[i as int].1 == sections@[i as int].linkedin_sections);
        if sections[i].linkedin_sections == kind {
            return Some(i);
        }
        i = i + 1;
    }
    None
}

fn any_keyword_present(keywords: &Vec<String>, text: &Option<String>) -> (r: bool)
    ensures
        r == keywords_present(string_views(keywords@), opt_view(*text)),
{
    let t = match text {
        Some(t) => to_lowercase(t.as_str()),
        None => to_lowercase(""),
    };
    proof {
        if text is None {
            assert(""@ =~= Seq::<char>::empty()) by {
                reveal_strlit("");
            }
        }
    }
    let tv = chars_of(t.as_str());
    let ghost kv = string_views(keywords@);
    let mut k: usize = 0;
    while k < keywords.len()
        invariant
            k <= keywords.len(),
            kv == string_views(keywords@),
            tv@ == lowercase(match opt_view(*text) {
                Some(x) => x,
                None => seq![],
            }),
            forall|j: int| 0 <= j < k ==> !contains(tv@, lowercase(#[trigger] kv[j])),
        decreases keywords.len() - k,
    {
        let lk = to_lowercase(keywords[k].as_str());
        let lkv = chars_of(lk.as_str());
        assert(kv[k as int] == keywords@[k as int]@);
        if contains_chars(tv.as_slice(), lkv.as_slice()) {
            return true;
        }
        k = k + 1;
    }
    false
}

fn filter_matches(filter: &Filters, sections: &Vec<LinkedinSection>) -> (r: bool)
    ensures
        r == filter_matched(filters_model(*filter), section_models(sections@)),
{
    let ghost f = filters_model(*filter);
    let ghost secs = section_models(sections@);
    let mut j: usize = 0;
    while j < filter.linkedin_sections.len()
        invariant
            j <= filter.linkedin_sections.len(),
            f == filters_model(*filter),
            secs == section_models(sections@),
            forall|q: int| 0 <= q < j ==> match find_section_from(secs, #[trigger] f.1[q], 0) {
                None => false,
                Some(i) => {
                    let present = keywords_present(f.0, secs[i].0);
                    !((f.2 == InclusionIndicator::IsContained && !present) || (f.2
                        == InclusionIndicator::NotContained && present))
                },
            },
        decreases filter.linkedin_sections.len() - j,
    {
        let section = filter.linkedin_sections[j];
        match find_section(sections, section) {
            Some(i) => {
                let ls = &sections[i];
                assert(section_model(*ls) == secs[i as int]);
                let keywords_present = any_keyword_present(&filter.keywords, &ls.text);
                if (filter.inclusion_indicator == InclusionIndicator::IsContained
                    && !keywords_present) || (filter.inclusion_indicator
                    == InclusionIndicator::NotContained && keywords_present) {
                    return false;
                }
            },
            None => {
                return false;
            },
        }
        j = j + 1;
    }
    true
}

fn group_check(group: &FilterGroup, sections: &Vec<LinkedinSection>) -> (r: bool)
    requires
        group.filters.len() > 0,
    ensures
        r == group_holds(filters_models(group.filters@), section_models(sections@)),
{
    let ghost fs = filters_models(group.filters@);
    let ghost secs = section_models(sections@);
    let mut all_filters_matched = true;
    let mut any_filter_matched = false;
    let mut j: usize = 0;
    while j < group.filters.len() && all_filters_matched
        invariant
            j <= group.filters.len(),
            fs == filters_models(group.filters@),
            secs == section_models(sections@),
            all_filters_matched ==> scan_group(fs, secs, 0, true, false) == scan_group(
                fs,
                secs,
                j as int,
                true,
                any_filter_matched,
            ),
            !all_filters_matched ==> scan_group(fs, secs, 0, true, false) == (
                false,
                any_filter_matched,
            ),
        decreases group.filters.len() - j,
    {
        let filter = &group.filters[j];
        assert(filters_model(*filter) == fs[j as int]);
        let filter_matched = filter_matches(filter, sections);
        if filter.condition == Condition::AND {
            if !filter_matched {
                all_filters_matched = false;
            }
        } else if filter.condition == Condition::OR {
            if filter_matched {
                any_filter_matched = true;
            }
        }
        j = j + 1;
    }
    assert(filters_model(group.filters@[0]) == fs[0]);
    (group.filters[0].condition == Condition::AND && all_filters_matched) || (
    group.filters[0].condition == Condition::OR && any_filter_matched)
}

/// The first group whose filters hold on the profile's sections.
pub fn check_keywords_in_groups(groups: Vec<FilterGroup>, linkedin_sections: Vec<LinkedinSection>) -> (r: Option<FilterGroup>)
    requires
        forall|i: int| 0 <= i < groups@.len() ==> (#[trigger] groups@[i]).filters.len() > 0,
    ensures
        match first_holding_from(keyword_group_models(groups@), section_models(linkedin_sections@), 0) {
            Some(i) => r == Some(groups@[i]),
            None => r is None,
        },
{
    let ghost gs = keyword_group_models(groups@);
    let ghost secs = section_models(linkedin_sections@);
    let ghost orig = groups@;
    let n = groups.len();
    let mut rest = groups;
    let mut i: usize = 0;
    while rest.len() > 0
        invariant
            i <= orig.len(),
            n == orig.len(),
            rest@ == orig.skip(i as int),
            orig == groups@,
            gs == keyword_group_models(orig),
            secs == section_models(linkedin_sections@),
            forall|k: int| 0 <= k < orig.len() ==> (#[trigger] orig[k]).filters.len() > 0,
            first_holding_from(gs, secs, 0) == first_holding_from(gs, secs, i as int),
        decreases rest.len(),
    {
        let group = rest.remove(0);
        assert(group == orig[i as int]);
        assert(filters_models(group.filters@) == gs[i as int]);
        if group_check(&group, &linkedin_sections) {
            assert(first_holding_from(gs, secs, i as int) == Some(i as int));
            return Some(group);
        }
        i = i + 1;
        assert(rest@ =~= orig.skip(i as int));
    }
    None
}

/// Whether the profile's sections satisfy the keyword filters.
pub fn keyword(entry: EntryKeyword) -> (r: bool)
    ensures
        r == first_holding_from(
            keyword_group_spec(filters_models(entry.filters@)),
            section_models(entry.linkedin_sections.response.sections@),
            0,
        ) is Some,
{
    let filters = entry.filters;
    let sections = entry.linkedin_sections.response.sections;
    let group_filters = group_filters(filters);
    proof {
        let m = filters_models(entry.filters@);
        crate::evaluate::lemma_groups_partition(m, |x: FiltersModel| keyword_is_or(x), 0, seq![]);
        assert forall|i: int| 0 <= i < group_filters@.len() implies (#[trigger] group_filters@[i]).filters.len() > 0 by {
            assert(keyword_group_models(group_filters@)[i].len() > 0);
        }
    }
    let result = check_keywords_in_groups(group_filters, sections);
    result.is_some()
}

/// Grouping the keyword filters keeps every filter, in order, and forms no
/// empty group: the groups, read one after another, are the filters.
/// Within a group only the last filter may be an `OR` filter, and every
/// group but the last ends with one.
pub proof fn law_keyword_grouping_keeps_filters(s: Seq<FiltersModel>)
    ensures
        keyword_group_spec(s).fold_left(Seq::<FiltersModel>::empty(), |acc: Seq<FiltersModel>, g: Seq<FiltersModel>| acc + g) == s,
        forall|j: int| 0 <= j < keyword_group_spec(s).len() ==> #[trigger] keyword_group_spec(s)[j].len() > 0,
        forall|j: int, k: int|
            0 <= j < keyword_group_spec(s).len() && 0 <= k < keyword_group_spec(s)[j].len() - 1 ==> !keyword_is_or(
                #[trigger] keyword_group_spec(s)[j][k],
            ),
        forall|j: int| 0 <= j < keyword_group_spec(s).len() - 1 ==> keyword_is_or(
            #[trigger] keyword_group_spec(s)[j].last(),
        ),
{
    crate::evaluate::lemma_groups_partition(s, |m: FiltersModel| keyword_is_or(m), 0, seq![]);
    crate::evaluate::lemma_groups_or_last(s, |m: FiltersModel| keyword_is_or(m), 0, seq![]);
    assert(Seq::<FiltersModel>::empty() + s.skip(0) =~= s);
}

/// The text of a section, empty when the section has none.
pub open spec fn section_text(text: Option<Seq<char>>) -> Seq<char> {
    match text {
        Some(t) => t,
        None => seq![],
    }
}

/// A section holds a filter's keywords when any one of them occurs in its
/// text, both taken in lowercase: one keyword found is enough, whatever the
/// others; an empty list is never found; and the keywords of two lists are
/// found exactly when those of one of them are.
pub proof fn law_one_keyword_is_enough(
    keywords: Seq<Seq<char>>,
    more: Seq<Seq<char>>,
    text: Option<Seq<char>>,
    k: int,
)
    ensures
        0 <= k < keywords.len() && contains(lowercase(section_text(text)), lowercase(keywords[k]))
            ==> keywords_present(keywords, text),
        !keywords_present(seq![], text),
        keywords_present(keywords + more, text) <==> (keywords_present(keywords, text)
            || keywords_present(more, text)),
{
    let t = lowercase(section_text(text));
    if 0 <= k < keywords.len() && contains(t, lowercase(keywords[k])) {
        assert(contains(t, lowercase(keywords[k])));
    }
    let all = keywords + more;
    if keywords_present(all, text) {
        let j = choose|j: int| 0 <= j < all.len() && contains(t, lowercase(#[trigger] all[j]));
        if j < keywords.len() {
            assert(all[j] == keywords[j]);
        } else {
            assert(all[j] == more[j - keywords.len()]);
        }
    }
    if keywords_present(keywords, text) {
        let j = choose|j: int| 0 <= j < keywords.len() && contains(t, lowercase(#[trigger] keywords[j]));
        assert(all[j] == keywords[j]);
    }
    if keywords_present(more, text) {
        let j = choose|j: int| 0 <= j < more.len() && contains(t, lowercase(#[trigger] more[j]));
        assert(all[keywords.len() + j] == more[j]);
    }
}

/// A filter on one section that asks for its keywords to be contained
/// matches when the profile has that section and one of the filter's
/// keywords occurs in its text, whatever the other keywords.
pub proof fn law_filter_matches_on_one_keyword(f: FiltersModel, secs: Seq<SectionModel>, i: int, k: int)
    requires
        f.1.len() == 1,
        f.2 == InclusionIndicator::IsContained,
        find_section_from(secs, f.1[0], 0) == Some(i),
        0 <= k < f.0.len(),
        contains(lowercase(section_text(secs[i].0)), lowercase(f.0[k])),
    ensures
        filter_matched(f, secs),
{
    law_one_keyword_is_enough(f.0, seq![], secs[i].0, k);
}

/// Grouping the keyword filters forms one group for each `OR` filter, and
/// one more when the last filter is an `AND` filter.
pub proof fn law_keyword_group_count(s: Seq<FiltersModel>)
    ensures
        keyword_group_spec(s).len() == s.filter(|m: FiltersModel| keyword_is_or(m)).len() + (if s.len()
            > 0 && s.last().3 == Condition::AND {
            1int
        } else {
            0int
        }),
{
    let is_or = |m: FiltersModel| keyword_is_or(m);
    crate::evaluate::lemma_groups_count(s, is_or, 0, seq![]);
    assert(s.skip(0) =~= s);
    assert(Seq::<FiltersModel>::empty() + s =~= s);
}

/// Whether a group of keyword filters passes, said directly: a group that
/// starts with an `AND` filter passes when all its `AND` filters match; a
/// group that starts with an `OR` filter passes when that filter matches.
pub open spec fn group_passes(g: Seq<FiltersModel>, secs: Seq<SectionModel>) -> bool {
    if g[0].3 == Condition::AND {
        forall|k: int| 0 <= k < g.len() && (#[trigger] g[k]).3 == Condition::AND ==> filter_matched(g[k], secs)
    } else {
        filter_matched(g[0], secs)
    }
}

/// The scan's first answer: whether all `AND` filters from `j` on match.
proof fn lemma_scan_all(fs: Seq<FiltersModel>, secs: Seq<SectionModel>, j: int, all: bool, any: bool)
    requires
        0 <= j <= fs.len(),
    ensures
        scan_group(fs, secs, j, all, any).0 == (all && forall|k: int|
            j <= k < fs.len() && (#[trigger] fs[k]).3 == Condition::AND ==> filter_matched(fs[k], secs)),
    decreases fs.len() - j,
{
    if j < fs.len() {
        lemma_scan_all(fs, secs, j + 1, all, any || filter_matched(fs[j], secs));
        lemma_scan_all(fs, secs, j + 1, all, any);
    }
}

/// The scan of a group made of one `OR` filter finds whether it matches.
proof fn lemma_scan_single_or(fs: Seq<FiltersModel>, secs: Seq<SectionModel>)
    requires
        fs.len() == 1,
        fs[0].3 == Condition::OR,
    ensures
        scan_group(fs, secs, 0, true, false).1 == filter_matched(fs[0], secs),
{
    assert(scan_group(fs, secs, 1, true, filter_matched(fs[0], secs)) == (true, filter_matched(fs[0], secs)));
}

/// Where the search for the first holding group from `i` on ends.
proof fn lemma_first_holding(gs: Seq<Seq<FiltersModel>>, secs: Seq<SectionModel>, i: int)
    requires
        0 <= i <= gs.len(),
    ensures
        match first_holding_from(gs, secs, i) {
            Some(j) => i <= j < gs.len() && group_holds(gs[j], secs) && forall|m: int|
                i <= m < j ==> !group_holds(#[trigger] gs[m], secs),
            None => forall|m: int| i <= m < gs.len() ==> !group_holds(#[trigger] gs[m], secs),
        },
    decreases gs.len() - i,
{
    if i < gs.len() {
        lemma_first_holding(gs, secs, i + 1);
    }
}

/// Checking the groups that the keyword filters form finds the first group
/// that passes: a group starting with an `AND` filter passes when all its
/// `AND` filters match, a group starting with an `OR` filter (which is then
/// alone in it) when that filter matches.
pub proof fn law_keyword_check_finds_first_passing_group(s: Seq<FiltersModel>, secs: Seq<SectionModel>)
    ensures
        ({
            let gs = keyword_group_spec(s);
            match first_holding_from(gs, secs, 0) {
                Some(j) => 0 <= j < gs.len() && group_passes(gs[j], secs) && forall|m: int|
                    0 <= m < j ==> !group_passes(#[trigger] gs[m], secs),
                None => forall|m: int| 0 <= m < gs.len() ==> !group_passes(#[trigger] gs[m], secs),
            }
        }),
{
    let gs = keyword_group_spec(s);
    law_keyword_grouping_keeps_filters(s);
    assert forall|m: int| 0 <= m < gs.len() implies group_holds(#[trigger] gs[m], secs) == group_passes(gs[m], secs) by {
        let g = gs[m];
        assert(g.len() > 0);
        lemma_scan_all(g, secs, 0, true, false);
        if g[0].3 == Condition::OR {
            if g.len() > 1 {
                assert(!keyword_is_or(gs[m][0]));
            }
            lemma_scan_single_or(g, secs);
        }
    }
    lemma_first_holding(gs, secs, 0);
}

} // verus!
