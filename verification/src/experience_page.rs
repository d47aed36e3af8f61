//! Experience entries read from a LinkedIn profile: from the experience page
//! opened in its own tab (single positions, and companies that list several
//! positions), and from the experience list shown on the profile itself.
use vstd::prelude::*;
use vstd::string::*;
use crate::dom::{
    child_attrs, child_nested_texts, child_texts, first_attr, first_attr_value, first_joined,
    first_joined_text, first_node_text, first_text_piece, join_strings, matches_or_none,
    match_attrs, match_texts, page_attrs, page_children, page_outer_html, page_texts, second_joined, second_joined_text,
    select_child_attrs, select_child_nested_texts, select_child_texts, select_children, select_match_attrs, select_match_texts,
    select_outer_html, select_texts, string_views,
};
use crate::misc::{dot_delimiter, get_date, get_date_spec, opt_view, split_around_dot, split_around_spec};
use crate::profile::{clone_opt, Experience, Skill};
use crate::text::{
    chars_of, contains, contains_chars, join, lemma_split_first, match_at, replace, replace_chars, split,
    split_from,
    split_chars, str_eq, string_from_chars, trim, trim_chars, trim_str, views,
};

verus! {

/// The trimmed pieces of a text that are not empty, in order.
pub open spec fn nonempty_trimmed(pieces: Seq<Seq<char>>) -> Seq<Seq<char>>
    decreases pieces.len(),
{
    if pieces.len() == 0 {
        seq![]
    } else {
        let rest = nonempty_trimmed(pieces.drop_last());
        let t = trim(pieces.last());
        if t.len() > 0 {
            rest.push(t)
        } else {
            rest
        }
    }
}

/// The pieces of `s` between the occurrences of `p`, trimmed, empty ones
/// left out.
pub fn trimmed_pieces(s: &[char], p: &[char]) -> (r: Vec<String>)
    requires
        p.len() > 0,
    ensures
        string_views(r@) == nonempty_trimmed(split(s@, p@)),
{
    let parts = split_chars(s, p);
    let ghost ps = views(parts@);
    let mut out: Vec<String> = Vec::new();
    let mut i: usize = 0;
    while i < parts.len()
        invariant
            i <= parts.len(),
            ps == views(parts@),
            ps.len() == parts.len(),
            string_views(out@) == nonempty_trimmed(ps.take(i as int)),
        decreases parts.len() - i,
    {
        let t = trim_chars(parts[i].as_slice());
        let ghost before = string_views(out@);
        proof {
            assert(ps.take(i + 1).drop_last() =~= ps.take(i as int));
            assert(ps.take(i + 1).last() == ps[i as int]);
            assert(parts@[i as int]@ == ps[i as int]);
        }
        if t.len() > 0 {
            out.push(string_from_chars(t.as_slice()));
            assert(string_views(out@) =~= before.push(t@));
        }
        i = i + 1;
    }
    assert(ps.take(parts.len() as int) =~= ps);
    out
}

/// The skills list: each text with its place in the list, counted from 1.
pub open spec fn skills_of(v: Seq<Skill>, texts: Seq<Seq<char>>) -> bool {
    &&& v.len() == texts.len()
    &&& forall|k: int|
        0 <= k < texts.len() ==> (#[trigger] v[k]).order == k + 1 && opt_view(v[k].skill) == Some(
            texts[k],
        )
}

/// The skills for the given texts, numbered from 1. Their number stays below
/// 127, the largest that an `i8` order can count to.
pub fn number_skills(texts: Vec<String>) -> (r: Vec<Skill>)
    requires
        texts@.len() < 127,
    ensures
        skills_of(r@, string_views(texts@)),
{
    let ghost tv = string_views(texts@);
    let mut out: Vec<Skill> = Vec::new();
    let mut order: i8 = 1;
    let mut i: usize = 0;
    while i < texts.len()
        invariant
            i <= texts.len(),
            texts@.len() < 127,
            tv == string_views(texts@),
            out@.len() == i,
            order == i + 1,
            forall|k: int|
                0 <= k < i ==> (#[trigger] out@[k]).order == k + 1 && opt_view(out@[k].skill)
                    == Some(tv[k]),
        decreases texts.len() - i,
    {
        let t = texts[i].clone();
        out.push(Skill { order, skill: Some(t) });
        order = order + 1;
        i = i + 1;
    }
    out
}

/// The skill texts of an entry listed on its own: each skills line that
/// holds a `·` gives its pieces between the `" · "` separators.
pub open spec fn single_entry_skills(ms: Seq<Seq<Seq<char>>>) -> Seq<Seq<char>>
    decreases ms.len(),
{
    if ms.len() == 0 {
        seq![]
    } else {
        let text = join(ms.last(), seq![' ']);
        let more = if contains(text, seq!['\u{b7}']) {
            nonempty_trimmed(split(text, dot_delimiter()))
        } else {
            seq![]
        };
        single_entry_skills(ms.drop_last()) + more
    }
}

/// The skill texts found in the skills lines of a single-position entry.
pub fn single_entry_skill_texts(ms: &Vec<Vec<String>>) -> (r: Vec<String>)
    ensures
        string_views(r@) == single_entry_skills(ms.deep_view()),
{
    let ghost mv = ms.deep_view();
    let dot = vec![' ', '\u{b7}', ' '];
    let mid = vec!['\u{b7}'];
    assert(dot@ =~= dot_delimiter());
    let mut out: Vec<String> = Vec::new();
    let mut i: usize = 0;
    while i < ms.len()
        invariant
            i <= ms.len(),
            mv == ms.deep_view(),
            mv.len() == ms.len(),
            dot@ == dot_delimiter(),
            mid@ == seq!['\u{b7}'],
            string_views(out@) == single_entry_skills(mv.take(i as int)),
        decreases ms.len() - i,
    {
        let text = join_strings(&ms[i], " ");
        proof {
            reveal_strlit(" ");
            assert(" "@ =~= seq![' ']);
            assert(ms@[i as int].deep_view() =~= string_views(ms@[i as int]@));
            assert(mv.take(i + 1).drop_last() =~= mv.take(i as int));
            assert(mv.take(i + 1).last() == mv[i as int]);
        }
        let tc = chars_of(text.as_str());
        let ghost before = string_views(out@);
        if contains_chars(tc.as_slice(), mid.as_slice()) {
            let pieces = trimmed_pieces(tc.as_slice(), dot.as_slice());
            let mut k: usize = 0;
            while k < pieces.len()
                invariant
                    k <= pieces.len(),
                    string_views(out@) == before + string_views(pieces@).take(k as int),
                decreases pieces.len() - k,
            {
                let c = pieces[k].clone();
                let ghost prev = out@;
                out.push(c);
                proof {
                    assert(out@ == prev.push(c));
                    assert(c@ == string_views(pieces@)[k as int]);
                    assert(string_views(out@) =~= string_views(prev).push(c@));
                    assert(string_views(pieces@).take(k + 1) =~= string_views(pieces@).take(
                        k as int,
                    ).push(c@));
                }
                k = k + 1;
            }
            assert(string_views(pieces@).take(pieces.len() as int) =~= string_views(pieces@));
        } else {
            assert(string_views(out@) =~= before + Seq::<Seq<char>>::empty());
        }
        i = i + 1;
    }
    assert(mv.take(ms.len() as int) =~= mv);
    out
}

/// The company's id in a company link: the link without the company pages'
/// prefix and without slashes; none for a link to a search.
pub open spec fn company_id_spec(url: Option<Seq<char>>) -> Option<Seq<char>> {
    match url {
        Some(u) => if contains(u, "com/search"@) {
            None
        } else {
            Some(replace(replace(u, "https://www.linkedin.com/company/"@, seq![]), seq!['/'], seq![]))
        },
        None => None,
    }
}

/// The company's id in a company link, as `company_id_spec` says.
pub fn company_id_from_url(url: &Option<String>) -> (r: Option<String>)
    ensures
        opt_view(r) == company_id_spec(opt_view(*url)),
{
    match url {
        Some(u) => {
            let uc = chars_of(u.as_str());
            let search = chars_of("com/search");
            if contains_chars(uc.as_slice(), search.as_slice()) {
                None
            } else {
                let prefix = chars_of("https://www.linkedin.com/company/");
                proof {
                    reveal_strlit("https://www.linkedin.com/company/");
                }
                let empty: Vec<char> = Vec::new();
                let slash = vec!['/'];
                let a = replace_chars(uc.as_slice(), prefix.as_slice(), empty.as_slice());
                let b = replace_chars(a.as_slice(), slash.as_slice(), empty.as_slice());
                assert(empty@ =~= seq![]);
                assert(slash@ =~= seq!['/']);
                Some(string_from_chars(b.as_slice()))
            }
        },
        None => None,
    }
}

/// The view of an optional string, trimmed.
pub open spec fn trimmed(o: Option<Seq<char>>) -> Option<Seq<char>> {
    match o {
        Some(t) => Some(trim(t)),
        None => None,
    }
}

/// The optional string trimmed.
pub fn trim_opt(o: Option<String>) -> (r: Option<String>)
    ensures
        opt_view(r) == trimmed(opt_view(o)),
{
    match o {
        Some(t) => Some(trim_str(t.as_str())),
        None => None,
    }
}

/// The part before `" · "` of a caption, when there is one.
pub open spec fn before_dot(o: Option<Seq<char>>) -> Option<Seq<char>> {
    match o {
        Some(t) => split_around_spec(t, dot_delimiter()).0,
        None => None,
    }
}

/// The part after `" · "` of a caption, when there is one.
pub open spec fn after_dot(o: Option<Seq<char>>) -> Option<Seq<char>> {
    match o {
        Some(t) => split_around_spec(t, dot_delimiter()).1,
        None => None,
    }
}

/// The caption's parts around `" · "`.
pub fn split_opt_around_dot(o: &Option<String>) -> (r: (Option<String>, Option<String>))
    ensures
        opt_view(r.0) == before_dot(opt_view(*o)),
        opt_view(r.1) == after_dot(opt_view(*o)),
{
    match o {
        Some(t) => split_around_dot(t.as_str()),
        None => (None, None),
    }
}

/// The start and end timestamps of a period caption, both none when the
/// caption's dates cannot be read.
pub open spec fn period_bounds(period: Option<Seq<char>>) -> (Option<i64>, Option<i64>) {
    match get_date_spec(period) {
        Ok(v) => (v[0], v[1]),
        Err(_) => (None, None),
    }
}

/// The start and end timestamps of a period caption.
pub fn period_bounds_of(period: &Option<String>) -> (r: (Option<i64>, Option<i64>))
    ensures
        r == period_bounds(opt_view(*period)),
{
    let d = match period {
        Some(p) => get_date(Some(p.as_str())),
        None => get_date(None),
    };
    match d {
        Ok(v) => (v[0], v[1]),
        Err(_) => (None, None),
    }
}

/// The matches of a query that lists the skills lines of an entry.
pub open spec fn skill_lines(html: Seq<char>, selector: Seq<char>) -> Seq<Seq<Seq<char>>> {
    matches_or_none(page_texts(html, selector))
}

/// The skills lines of a single-position entry.
pub open spec fn single_skills_selector() -> Seq<char> {
    "div.display-flex.t-14.t-normal.t-black > span:nth-of-type(1)"@
}

/// The experience list of the experience page.
pub open spec fn experience_list_selector() -> Seq<char> {
    "#profile-content > div > div.scaffold-layout > div.scaffold-layout__inner > div > main > section > div.pvs-list__container > div > div  > ul"@
}

/// The text pieces of each element that `selector` matches inside the entry
/// `k` of the experience list (the element child `k` of the list), matched
/// where it stands in the page.
pub open spec fn item_texts(html: Seq<char>, k: int, selector: Seq<char>) -> Option<Seq<Seq<Seq<char>>>> {
    child_texts(html, experience_list_selector(), k, selector)
}

/// The attribute `attr` of each element that `selector` matches inside the
/// entry `k` of the experience list.
pub open spec fn item_attrs(html: Seq<char>, k: int, selector: Seq<char>, attr: Seq<char>) -> Option<Seq<Option<Seq<char>>>> {
    child_attrs(html, experience_list_selector(), k, selector, attr)
}

/// The query `selector` inside the entry `k` of the experience list.
fn entry_texts(html: &str, k: usize, selector: &str) -> (r: Option<Vec<Vec<String>>>)
    ensures
        r.deep_view() == item_texts(html@, k as int, selector@),
{
    select_child_texts(
        html,
        "#profile-content > div > div.scaffold-layout > div.scaffold-layout__inner > div > main > section > div.pvs-list__container > div > div  > ul",
        k,
        selector,
    )
}

/// The attribute `attr` of the matches of `selector` inside the entry `k` of
/// the experience list.
fn entry_attrs(html: &str, k: usize, selector: &str, attr: &str) -> (r: Option<Vec<Option<String>>>)
    ensures
        r.deep_view() == item_attrs(html@, k as int, selector@, attr@),
{
    select_child_attrs(
        html,
        "#profile-content > div > div.scaffold-layout > div.scaffold-layout__inner > div > main > section > div.pvs-list__container > div > div  > ul",
        k,
        selector,
        attr,
    )
}

/// The company caption of the single-position entry `k`, trimmed.
pub open spec fn single_company_caption(html: Seq<char>, k: int) -> Option<Seq<char>> {
    trimmed(first_joined(item_texts(html, k, "div > div > div > div > div > span.t-14 > span"@), seq![]))
}

/// The company of the single-position entry `k`: the caption's part before
/// `" · "`, or the whole caption when it has none.
pub open spec fn single_company(html: Seq<char>, k: int) -> Option<Seq<char>> {
    match single_company_caption(html, k) {
        Some(f) => if split_around_spec(f, dot_delimiter()).0 is Some {
            split_around_spec(f, dot_delimiter()).0
        } else {
            Some(f)
        },
        None => None,
    }
}

/// The description of the single-position entry `k`: inside its first
/// `.display-flex.full-width` block, the first description span, trimmed.
pub open spec fn single_description(html: Seq<char>, k: int) -> Option<Seq<char>> {
    trimmed(
        first_joined(
            child_nested_texts(
                html,
                experience_list_selector(),
                k,
                ".display-flex.full-width"@,
                ".display-flex.align-items-center.t-14.t-normal.t-black > span:nth-of-type(1)"@,
            ),
            seq![],
        ),
    )
}

/// The period caption of the entry `k`, trimmed.
pub open spec fn entry_caption(html: Seq<char>, k: int) -> Option<Seq<char>> {
    trimmed(first_joined(item_texts(html, k, "span.pvs-entity__caption-wrapper"@), seq![]))
}

/// The link of the entry `k` to its company.
pub open spec fn entry_link(html: Seq<char>, k: int) -> Option<Seq<char>> {
    first_attr(item_attrs(html, k, "a.optional-action-target-wrapper"@, "href"@))
}

/// The logo of the entry `k`.
pub open spec fn entry_logo(html: Seq<char>, k: int) -> Option<Seq<char>> {
    first_attr(item_attrs(html, k, "img"@, "src"@))
}

/// The logo of an entry, read from its own HTML.
pub open spec fn logo_of(li: Seq<char>) -> Option<Seq<char>> {
    first_attr(page_attrs(li, "img"@, "src"@))
}

/// The skill texts of the single-position entry `k`.
pub open spec fn single_skill_texts(html: Seq<char>, k: int) -> Seq<Seq<char>> {
    single_entry_skills(matches_or_none(item_texts(html, k, single_skills_selector())))
}

/// The experience read from the entry `k` of the experience list of the
/// page `html`, an entry that holds a single position.
pub open spec fn single_entry(e: Experience, html: Seq<char>, k: int) -> bool {
    let employment = trimmed(first_joined(item_texts(html, k, "span.t-14.t-normal"@), seq![]));
    let period = before_dot(entry_caption(html, k));
    &&& opt_view(e.companyName) == single_company(html, k)
    &&& opt_view(e.companyLetter) == single_company(html, k)
    &&& opt_view(e.companyURL) == entry_link(html, k)
    &&& opt_view(e.companyId) == company_id_spec(entry_link(html, k))
    &&& opt_view(e.logo) == entry_logo(html, k)
    &&& opt_view(e.position) == first_node_text(item_texts(html, k, ".t-bold span"@))
    &&& opt_view(e.employmentType) == after_dot(after_dot(employment))
    &&& opt_view(e.periodText) == period
    &&& (e.startDate, e.endDate) == period_bounds(period)
    &&& opt_view(e.duration) == after_dot(entry_caption(html, k))
    &&& opt_view(e.location) == second_joined(
        item_texts(html, k, "span.t-14.t-normal.t-black--light > span:nth-of-type(1)"@),
        seq![],
    )
    &&& opt_view(e.description) == single_description(html, k)
    &&& skills_of(e.skills@, single_skill_texts(html, k))
}

/// Reads the entry `k` of the experience list of the page `html`, an entry
/// of a single position, where it stands in the page: company, position,
/// employment type, location, description, company link and id, logo, the
/// skills, and the period with its dates and duration.
pub fn parse_each_experience_type_one(html: &str, k: usize) -> (r: Experience)
    requires
        single_skill_texts(html@, k as int).len() < 127,
    ensures
        single_entry(r, html@, k as int),
{
    proof {
        reveal_strlit("");
        assert(""@ =~= Seq::<char>::empty());
    }
    let caption = trim_opt(
        first_joined_text(&entry_texts(html, k, "div > div > div > div > div > span.t-14 > span"), ""),
    );
    let company_name = match &caption {
        Some(f) => {
            let (before, _) = split_around_dot(f.as_str());
            if before.is_some() {
                before
            } else {
                Some(f.clone())
            }
        },
        None => None,
    };
    let position = first_text_piece(&entry_texts(html, k, ".t-bold span"));
    let employment = trim_opt(first_joined_text(&entry_texts(html, k, "span.t-14.t-normal"), ""));
    let (_, second_half) = split_opt_around_dot(&employment);
    let (_, employment_type) = split_opt_around_dot(&second_half);
    assert(opt_view(employment) == trimmed(first_joined(item_texts(html@, k as int, "span.t-14.t-normal"@), seq![])));
    assert(opt_view(employment_type) == after_dot(after_dot(opt_view(employment))));
    let location = second_joined_text(
        &entry_texts(html, k, "span.t-14.t-normal.t-black--light > span:nth-of-type(1)"),
        "",
    );
    let description = trim_opt(
        first_joined_text(
            &select_child_nested_texts(
                html,
                "#profile-content > div > div.scaffold-layout > div.scaffold-layout__inner > div > main > section > div.pvs-list__container > div > div  > ul",
                k,
                ".display-flex.full-width",
                ".display-flex.align-items-center.t-14.t-normal.t-black > span:nth-of-type(1)",
            ),
            "",
        ),
    );
    let company_url = first_attr_value(&entry_attrs(html, k, "a.optional-action-target-wrapper", "href"));
    let company_id = company_id_from_url(&company_url);
    let logo = first_attr_value(&entry_attrs(html, k, "img", "src"));
    let lines = entry_texts(html, k, "div.display-flex.t-14.t-normal.t-black > span:nth-of-type(1)");
    let texts = match &lines {
        Some(m) => single_entry_skill_texts(m),
        None => Vec::new(),
    };
    assert(string_views(texts@) == single_skill_texts(html@, k as int));
    let skills = number_skills(texts);
    let period_caption = trim_opt(
        first_joined_text(&entry_texts(html, k, "span.pvs-entity__caption-wrapper"), ""),
    );
    let (period_text, duration) = split_opt_around_dot(&period_caption);
    let (start_date, end_date) = period_bounds_of(&period_text);
    let company_letter = clone_opt(&company_name);
    assert(opt_view(company_name) == single_company(html@, k as int));
    assert(opt_view(company_letter) == single_company(html@, k as int));
    Experience {
        companyName: company_letter,
        companyId: company_id,
        companyLetter: company_name,
        companyURL: company_url,
        logo,
        position,
        employmentType: employment_type,
        periodText: period_text,
        startDate: start_date,
        endDate: end_date,
        duration,
        location,
        description,
        skills,
    }
}
/// What the crawler keeps of a company that lists several positions: its
/// name, employment type, id, link and logo.
pub struct ExperiencePartial {
    pub companyName: Option<String>,
    pub employmentType: Option<String>,
    pub companyId: Option<String>,
    pub companyURL: Option<String>,
    pub logo: Option<String>,
}

/// The company name of the entry `k`, an entry that lists several
/// positions.
pub open spec fn grouped_company(html: Seq<char>, k: int) -> Option<Seq<char>> {
    trimmed(
        first_joined(
            item_texts(html, k, ".display-flex .hoverable-link-text.t-bold > span:nth-of-type(1)"@),
            seq![],
        ),
    )
}

/// The employment type of the entry `k`, an entry that lists several
/// positions: its caption's part before `" · "`.
pub open spec fn grouped_employment(html: Seq<char>, k: int) -> Option<Seq<char>> {
    before_dot(trimmed(first_joined(item_texts(html, k, ".t-normal > span:nth-of-type(1)"@), seq![])))
}

/// The company fields of an entry that lists several positions: name,
/// employment type, id, link and logo.
pub type CompanyView = (Option<Seq<char>>, Option<Seq<char>>, Option<Seq<char>>, Option<Seq<char>>, Option<Seq<char>>);

/// The company fields that a partial entry holds.
pub open spec fn partial_view(p: ExperiencePartial) -> CompanyView {
    (opt_view(p.companyName), opt_view(p.employmentType), opt_view(p.companyId), opt_view(p.companyURL), opt_view(p.logo))
}

/// The company fields read from the entry `k` of the experience list, an
/// entry that lists several positions.
pub open spec fn company_of(html: Seq<char>, k: int) -> CompanyView {
    (
        grouped_company(html, k),
        grouped_employment(html, k),
        company_id_spec(entry_link(html, k)),
        entry_link(html, k),
        entry_logo(html, k),
    )
}

/// What is kept of the company of the entry `k` of the experience list.
pub open spec fn partial_of(p: ExperiencePartial, html: Seq<char>, k: int) -> bool {
    partial_view(p) == company_of(html, k)
}

/// Reads the company of the entry `k` of the experience list of the page
/// `html`, an entry that lists several positions, where it stands in the
/// page: its logo, link and id, name and employment type.
pub fn parse_partial(html: &str, k: usize) -> (r: ExperiencePartial)
    ensures
        partial_of(r, html@, k as int),
{
    proof {
        reveal_strlit("");
        assert(""@ =~= Seq::<char>::empty());
    }
    let company_logo = first_attr_value(&entry_attrs(html, k, "img", "src"));
    let company_url = first_attr_value(&entry_attrs(html, k, "a.optional-action-target-wrapper", "href"));
    let company_id = company_id_from_url(&company_url);
    let company = trim_opt(
        first_joined_text(
            &entry_texts(html, k, ".display-flex .hoverable-link-text.t-bold > span:nth-of-type(1)"),
            "",
        ),
    );
    let employment_caption = trim_opt(
        first_joined_text(&entry_texts(html, k, ".t-normal > span:nth-of-type(1)"), ""),
    );
    let (employment, _) = split_opt_around_dot(&employment_caption);
    ExperiencePartial {
        companyName: company,
        companyId: company_id,
        companyURL: company_url,
        logo: company_logo,
        employmentType: employment,
    }
}

/// The first line of a position's skills lines that names its skills: the
/// text after `"Skills:"`, trimmed.
pub open spec fn first_skills_line(ms: Seq<Seq<Seq<char>>>) -> Option<Seq<char>>
    decreases ms.len(),
{
    if ms.len() == 0 {
        None
    } else {
        let t = join(ms[0], seq![]);
        if contains(t, "Skills:"@) {
            Some(trim(split(t, "Skills:"@)[1]))
        } else {
            first_skills_line(ms.drop_first())
        }
    }
}

/// The skills lines of a position listed under its company.
pub open spec fn grouped_skills_selector() -> Seq<char> {
    "li.pvs-list__item--with-top-padding div.display-flex div.display-flex.align-items-center.t-14.t-normal.t-black"@
}

/// The skill texts of a position listed under its company.
pub open spec fn grouped_skill_texts(html: Seq<char>) -> Seq<Seq<char>> {
    match first_skills_line(skill_lines(html, grouped_skills_selector())) {
        Some(line) => nonempty_trimmed(split(line, dot_delimiter())),
        None => seq![],
    }
}

/// The text after `"Skills:"` in the first skills line that has it.
pub fn first_skills_line_of(ms: &Vec<Vec<String>>) -> (r: Option<String>)
    ensures
        opt_view(r) == first_skills_line(ms.deep_view()),
{
    let ghost mv = ms.deep_view();
    let marker = chars_of("Skills:");
    proof {
        reveal_strlit("Skills:");
        reveal_strlit("");
        assert(""@ =~= Seq::<char>::empty());
        assert(mv.skip(0) =~= mv);
    }
    let mut i: usize = 0;
    while i < ms.len()
        invariant
            i <= ms.len(),
            ""@ == Seq::<char>::empty(),
            mv == ms.deep_view(),
            mv.len() == ms.len(),
            marker@ == "Skills:"@,
            marker@.len() > 0,
            first_skills_line(mv) == first_skills_line(mv.skip(i as int)),
        decreases ms.len() - i,
    {
        proof {
            assert(ms@[i as int].deep_view() =~= string_views(ms@[i as int]@));
            assert(mv.skip(i as int)[0] == mv[i as int]);
            assert(mv.skip(i as int).drop_first() =~= mv.skip(i + 1));
        }
        let text = join_strings(&ms[i], "");
        assert(text@ == join(mv[i as int], seq![]));
        let tc = chars_of(text.as_str());
        if contains_chars(tc.as_slice(), marker.as_slice()) {
            let parts = split_chars(tc.as_slice(), marker.as_slice());
            proof {
                let t = tc@;
                let p = marker@;
                crate::text::lemma_find_from(t, p, 0);
                lemma_split_first(t, p, 0, 0);
                let j = crate::text::find(t, p)->0;
                lemma_split_first(t, p, j + p.len(), j + p.len());
                assert(split(t, p).len() >= 2);
            }
            let piece = &parts[1];
            let trimmed_piece = trim_chars(piece.as_slice());
            return Some(string_from_chars(trimmed_piece.as_slice()));
        }
        i = i + 1;
    }
    None
}

/// The position listed under a company, read from the HTML inside its list
/// item, with the fields `c` of its company.
pub open spec fn grouped_entry(e: Experience, html: Seq<char>, c: CompanyView) -> bool {
    let duration = first_joined(
        page_texts(html, "span.t-14.t-normal.t-black--light > span:nth-of-type(1)"@),
        seq![],
    );
    let period = before_dot(duration);
    &&& opt_view(e.companyName) == c.0
    &&& opt_view(e.companyLetter) == c.0
    &&& opt_view(e.employmentType) == c.1
    &&& opt_view(e.companyId) == c.2
    &&& opt_view(e.companyURL) == c.3
    &&& opt_view(e.logo) == c.4
    &&& opt_view(e.position) == first_node_text(page_texts(html, ".t-bold span"@))
    &&& opt_view(e.periodText) == period
    &&& (e.startDate, e.endDate) == period_bounds(period)
    &&& opt_view(e.duration) == after_dot(duration)
    &&& e.location is None
    &&& opt_view(e.description) == first_joined(
        page_texts(
            html,
            "div.display-flex.align-items-center.t-14.t-normal.t-black > span:nth-of-type(1)"@,
        ),
        seq![],
    )
    &&& skills_of(e.skills@, grouped_skill_texts(html))
}

/// Reads a position listed under a company from the HTML inside its list
/// item: position, description, period with its dates and duration, and
/// skills; the company's fields come from `partial`.
pub fn parse_each_experience_type_two(html: &str, partial: &ExperiencePartial) -> (r: Experience)
    requires
        grouped_skill_texts(html@).len() < 127,
    ensures
        grouped_entry(r, html@, partial_view(*partial)),
{
    proof {
        reveal_strlit("");
        assert(""@ =~= Seq::<char>::empty());
    }
    let position = first_text_piece(&select_texts(html, ".t-bold span"));
    let description = first_joined_text(
        &select_texts(
            html,
            "div.display-flex.align-items-center.t-14.t-normal.t-black > span:nth-of-type(1)",
        ),
        "",
    );
    let duration = first_joined_text(
        &select_texts(html, "span.t-14.t-normal.t-black--light > span:nth-of-type(1)"),
        "",
    );
    let (period_text, duration_text) = split_opt_around_dot(&duration);
    let (start_date, end_date) = period_bounds_of(&period_text);
    let lines = select_texts(
        html,
        "li.pvs-list__item--with-top-padding div.display-flex div.display-flex.align-items-center.t-14.t-normal.t-black",
    );
    let line = match &lines {
        Some(m) => first_skills_line_of(m),
        None => None,
    };
    let texts = match &line {
        Some(l) => {
            let lc = chars_of(l.as_str());
            let dot = vec![' ', '\u{b7}', ' '];
            assert(dot@ =~= dot_delimiter());
            trimmed_pieces(lc.as_slice(), dot.as_slice())
        },
        None => Vec::new(),
    };
    assert(string_views(texts@) == grouped_skill_texts(html@));
    let skills = number_skills(texts);
    Experience {
        companyName: clone_opt(&partial.companyName),
        companyId: clone_opt(&partial.companyId),
        companyLetter: clone_opt(&partial.companyName),
        companyURL: clone_opt(&partial.companyURL),
        logo: clone_opt(&partial.logo),
        position,
        employmentType: clone_opt(&partial.employmentType),
        periodText: period_text,
        startDate: start_date,
        endDate: end_date,
        duration: duration_text,
        location: None,
        description,
        skills,
    }
}

/// The list of positions that a company entry opens.
pub open spec fn grouped_list_selector() -> Seq<char> {
    "div > div > div > div > ul > li > div > div > div > ul"@
}

/// The HTML inside each child named `li`, in order, of a list of element
/// children given by tag name and inner HTML.
pub open spec fn li_inner(cs: Seq<(Seq<char>, Seq<char>)>) -> Seq<Seq<char>>
    decreases cs.len(),
{
    if cs.len() == 0 {
        seq![]
    } else {
        let rest = li_inner(cs.drop_last());
        if cs.last().0 == "li"@ {
            rest.push(cs.last().1)
        } else {
            rest
        }
    }
}

/// The element children of the first element that `list` matches in the
/// page, each with its tag name and inner HTML.
fn children_of(html: &str, list: &str) -> (r: Vec<(String, String)>)
    ensures
        r.deep_view() == matches_or_none(page_children(html@, list@)),
{
    match select_children(html, list) {
        Some(m) => m,
        None => {
            let v: Vec<(String, String)> = Vec::new();
            assert(v.deep_view() =~= seq![]);
            v
        },
    }
}

/// The HTML inside each `li` child of the first element that `list` matches
/// in the page, in order.
fn li_children_inner(html: &str, list: &str) -> (r: Vec<String>)
    ensures
        string_views(r@) == li_inner(matches_or_none(page_children(html@, list@))),
{
    let cs = children_of(html, list);
    let ghost cv = cs.deep_view();
    let mut out: Vec<String> = Vec::new();
    let mut i: usize = 0;
    while i < cs.len()
        invariant
            i <= cs.len(),
            cv == cs.deep_view(),
            cv.len() == cs.len(),
            string_views(out@) == li_inner(cv.take(i as int)),
        decreases cs.len() - i,
    {
        proof {
            reveal_strlit("li");
            assert(cv.take(i + 1).drop_last() =~= cv.take(i as int));
            assert(cv.take(i + 1).last() == cv[i as int]);
            assert(cv[i as int] == (cs@[i as int].0@, cs@[i as int].1@));
        }
        if str_eq(cs[i].0.as_str(), "li") {
            let ghost before = string_views(out@);
            out.push(cs[i].1.clone());
            assert(string_views(out@) =~= before.push(cv[i as int].1));
        }
        i = i + 1;
    }
    assert(cv.take(cs.len() as int) =~= cv);
    out
}

/// The positions listed under a company: the HTML inside each `li` child of
/// the first such list of the page.
pub open spec fn grouped_entries(html: Seq<char>) -> Seq<Seq<char>> {
    li_inner(matches_or_none(page_children(html, grouped_list_selector())))
}

/// The element children of the experience list of the page, each with its
/// tag name and inner HTML.
pub open spec fn experience_children(html: Seq<char>) -> Seq<(Seq<char>, Seq<char>)> {
    matches_or_none(page_children(html, experience_list_selector()))
}

/// The entry `k` of the experience list lists several positions of one
/// company.
pub open spec fn is_grouped(html: Seq<char>, k: int) -> bool {
    item_texts(html, k, "div.hoverable-link-text"@) matches Some(m) && m.len() > 0
}

/// Where an experience comes from: a grouped position (the HTML inside its
/// list item, and the place of its company's entry in the experience list)
/// or an entry on its own (its place in the experience list).
pub type Source = (bool, Seq<char>, int);

/// The sources that the child `k` of the experience list gives: none when it
/// is not an `li`.
pub open spec fn child_sources(html: Seq<char>, k: int) -> Seq<Source> {
    if experience_children(html)[k].0 == "li"@ {
        if is_grouped(html, k) {
            let es = grouped_entries(html);
            Seq::new(es.len(), |j: int| (true, es[j], k))
        } else {
            seq![(false, seq![], k)]
        }
    } else {
        seq![]
    }
}

/// The sources of the first `n` children of the experience list, in order.
pub open spec fn sources_upto(html: Seq<char>, n: int) -> Seq<Source>
    decreases n,
{
    if n <= 0 {
        seq![]
    } else {
        sources_upto(html, n - 1) + child_sources(html, n - 1)
    }
}

/// The sources of the experiences of the experience page.
pub open spec fn experience_sources(html: Seq<char>) -> Seq<Source> {
    sources_upto(html, experience_children(html).len() as int)
}

/// The skills of the source fit in an `i8` order.
pub open spec fn source_fits(html: Seq<char>, src: Source) -> bool {
    if src.0 {
        grouped_skill_texts(src.1).len() < 127
    } else {
        single_skill_texts(html, src.2).len() < 127
    }
}

/// The experience read from its source in the page `html`.
pub open spec fn entry_of_source(e: Experience, html: Seq<char>, src: Source) -> bool {
    if src.0 {
        grouped_entry(e, src.1, company_of(html, src.2))
    } else {
        single_entry(e, html, src.2)
    }
}

proof fn lemma_sources_prefix(html: Seq<char>, i: int, n: int)
    requires
        0 <= i <= n,
    ensures
        sources_upto(html, i).len() <= sources_upto(html, n).len(),
        forall|k: int|
            0 <= k < sources_upto(html, i).len() ==> sources_upto(html, n)[k]
                == #[trigger] sources_upto(html, i)[k],
    decreases n,
{
    if i < n {
        lemma_sources_prefix(html, i, n - 1);
    }
}

/// Whether the skills of the single-position entry `k` fit in an `i8` order.
fn single_fits(html: &str, k: usize) -> (r: bool)
    ensures
        r == (single_skill_texts(html@, k as int).len() < 127),
{
    let lines = entry_texts(html, k, "div.display-flex.t-14.t-normal.t-black > span:nth-of-type(1)");
    let texts = match &lines {
        Some(m) => single_entry_skill_texts(m),
        None => Vec::new(),
    };
    assert(string_views(texts@).len() == texts@.len());
    texts.len() < 127
}

/// Whether the grouped position's skills fit in an `i8` order.
fn grouped_fits(html: &str) -> (r: bool)
    ensures
        r == (grouped_skill_texts(html@).len() < 127),
{
    let lines = select_texts(
        html,
        "li.pvs-list__item--with-top-padding div.display-flex div.display-flex.align-items-center.t-14.t-normal.t-black",
    );
    let line = match &lines {
        Some(m) => first_skills_line_of(m),
        None => None,
    };
    let texts = match &line {
        Some(l) => {
            let lc = chars_of(l.as_str());
            let dot = vec![' ', '\u{b7}', ' '];
            assert(dot@ =~= dot_delimiter());
            trimmed_pieces(lc.as_slice(), dot.as_slice())
        },
        None => Vec::new(),
    };
    assert(string_views(texts@).len() == texts@.len());
    texts.len() < 127
}

/// Reads every experience of the experience page, in order, each entry where
/// it stands in the page: of the `li` children of the experience list, one
/// that lists several positions of one company gives one experience for each
/// `li` of the page's first list of grouped positions, read from the HTML
/// inside it; one on its own gives one. `None` when an entry has 127 skills
/// or more, which an `i8` order cannot number.
pub fn parse_experience(html: &str) -> (r: Option<Vec<Experience>>)
    ensures
        (forall|k: int|
            0 <= k < experience_sources(html@).len() ==> #[trigger] source_fits(
                html@,
                experience_sources(html@)[k],
            )) ==> (r matches Some(v) && v@.len() == experience_sources(html@).len() && forall|
            k: int,
        |
            0 <= k < v@.len() ==> #[trigger] entry_of_source(v@[k], html@, experience_sources(html@)[k])),
        !(forall|k: int|
            0 <= k < experience_sources(html@).len() ==> #[trigger] source_fits(
                html@,
                experience_sources(html@)[k],
            )) ==> r is None,
{
    let children = children_of(
        html,
        "#profile-content > div > div.scaffold-layout > div.scaffold-layout__inner > div > main > section > div.pvs-list__container > div > div  > ul",
    );
    let ghost cv = children.deep_view();
    let ghost all = experience_sources(html@);
    let n = children.len();
    assert(cv == experience_children(html@));
    let mut experiences: Vec<Experience> = Vec::new();
    let mut i: usize = 0;
    while i < n
        invariant
            i <= n,
            n == children.len(),
            cv == children.deep_view(),
            cv == experience_children(html@),
            cv.len() == n,
            all == experience_sources(html@),
            all == sources_upto(html@, n as int),
            experiences@.len() == sources_upto(html@, i as int).len(),
            forall|k: int|
                0 <= k < experiences@.len() ==> #[trigger] entry_of_source(
                    experiences@[k],
                    html@,
                    sources_upto(html@, i as int)[k],
                ),
            forall|k: int|
                0 <= k < experiences@.len() ==> #[trigger] source_fits(
                    html@,
                    sources_upto(html@, i as int)[k],
                ),
        decreases n - i,
    {
        let ghost pre = sources_upto(html@, i as int);
        let ghost cur = sources_upto(html@, i + 1);
        proof {
            reveal_strlit("li");
            assert(cur == pre + child_sources(html@, i as int));
            lemma_sources_prefix(html@, i + 1, n as int);
            assert(cv[i as int] == (children@[i as int].0@, children@[i as int].1@));
        }
        if str_eq(children[i].0.as_str(), "li") {
            let hover = entry_texts(html, i, "div.hoverable-link-text");
            let grouped = match &hover {
                Some(m) => m.len() > 0,
                None => false,
            };
            if grouped {
                let partial = parse_partial(html, i);
                let entries = li_children_inner(html, "div > div > div > div > ul > li > div > div > div > ul");
                let ghost ev = string_views(entries@);
                assert(ev == grouped_entries(html@));
                let mut j: usize = 0;
                while j < entries.len()
                    invariant
                        j <= entries.len(),
                        ev == string_views(entries@),
                        ev == grouped_entries(html@),
                        is_grouped(html@, i as int),
                        partial_of(partial, html@, i as int),
                        cv[i as int].0 == "li"@,
                        cv == experience_children(html@),
                        i < cv.len(),
                        cur == pre + child_sources(html@, i as int),
                        cur.len() <= all.len(),
                        all == experience_sources(html@),
                        forall|k: int| 0 <= k < cur.len() ==> all[k] == #[trigger] cur[k],
                        experiences@.len() == pre.len() + j,
                        forall|k: int|
                            0 <= k < experiences@.len() ==> #[trigger] entry_of_source(
                                experiences@[k],
                                html@,
                                cur[k],
                            ),
                        forall|k: int|
                            0 <= k < experiences@.len() ==> #[trigger] source_fits(html@, cur[k]),
                    decreases entries.len() - j,
                {
                    let e_html = entries[j].as_str();
                    proof {
                        assert(e_html@ == ev[j as int]);
                        assert(child_sources(html@, i as int).len() == ev.len());
                        assert(cur[pre.len() + j] == (true, ev[j as int], i as int));
                        assert(pre.len() + j < all.len());
                    }
                    if !grouped_fits(e_html) {
                        proof {
                            assert(!source_fits(html@, all[pre.len() + j]));
                        }
                        return None;
                    }
                    let e = parse_each_experience_type_two(e_html, &partial);
                    experiences.push(e);
                    j = j + 1;
                }
            } else {
                proof {
                    assert(cur[pre.len() as int] == (false, Seq::<char>::empty(), i as int));
                    assert(pre.len() < all.len());
                }
                if !single_fits(html, i) {
                    proof {
                        assert(!source_fits(html@, all[pre.len() as int]));
                    }
                    return None;
                }
                let e = parse_each_experience_type_one(html, i);
                experiences.push(e);
            }
        } else {
            assert(cur =~= pre);
        }
        i = i + 1;
    }
    Some(experiences)
}

/// The last piece of a link between slashes.
pub open spec fn last_segment(href: Option<Seq<char>>) -> Option<Seq<char>> {
    match href {
        Some(h) => Some(split(h, seq!['/']).last()),
        None => None,
    }
}

/// The last piece of a link between slashes.
fn last_segment_of(href: &Option<String>) -> (r: Option<String>)
    ensures
        opt_view(r) == last_segment(opt_view(*href)),
{
    match href {
        Some(h) => {
            let hc = chars_of(h.as_str());
            let slash = vec!['/'];
            assert(slash@ =~= seq!['/']);
            let parts = split_chars(hc.as_slice(), slash.as_slice());
            proof {
                lemma_split_first(hc@, slash@, 0, 0);
            }
            let last = &parts[parts.len() - 1];
            assert(views(parts@).last() == last@);
            Some(string_from_chars(last.as_slice()))
        },
        None => None,
    }
}

/// The entries of the experience list shown on the profile itself.
pub open spec fn listed_selector() -> Seq<char> {
    ".pvs-list__paged-list-item"@
}

/// The text pieces of each element that `selector` matches inside the
/// `k`-th entry of the experience list shown on the profile, matched where
/// it stands in the page.
pub open spec fn listed_texts(html: Seq<char>, k: int, selector: Seq<char>) -> Option<Seq<Seq<Seq<char>>>> {
    match_texts(html, listed_selector(), k, selector)
}

/// The attribute `attr` of each element that `selector` matches inside the
/// `k`-th entry of the experience list shown on the profile.
pub open spec fn listed_attrs(html: Seq<char>, k: int, selector: Seq<char>, attr: Seq<char>) -> Option<Seq<Option<Seq<char>>>> {
    match_attrs(html, listed_selector(), k, selector, attr)
}

/// The link of the `k`-th listed entry to its company.
pub open spec fn listed_link(html: Seq<char>, k: int) -> Option<Seq<char>> {
    first_attr(listed_attrs(html, k, "a.optional-action-target-wrapper"@, "href"@))
}

/// The experience read from the `k`-th entry of the experience list shown
/// on the profile itself: company link and its last piece as id, logo,
/// position, company and employment type around `" · "`, period and
/// location around `" · "`, and the description; nothing else is read.
pub open spec fn listed_experience(e: Experience, html: Seq<char>, k: int) -> bool {
    let company = first_joined(listed_texts(html, k, "span.t-14.t-normal"@), seq![]);
    let period = first_joined(listed_texts(html, k, "span.t-14.t-normal.t-black--light"@), seq![]);
    &&& opt_view(e.companyURL) == listed_link(html, k)
    &&& opt_view(e.companyId) == last_segment(listed_link(html, k))
    &&& opt_view(e.logo) == first_attr(listed_attrs(html, k, "img"@, "src"@))
    &&& opt_view(e.position) == first_node_text(listed_texts(html, k, ".t-bold span"@))
    &&& opt_view(e.companyName) == before_dot(company)
    &&& opt_view(e.employmentType) == after_dot(company)
    &&& opt_view(e.periodText) == before_dot(period)
    &&& opt_view(e.location) == after_dot(period)
    &&& opt_view(e.description) == trimmed(
        first_joined(listed_texts(html, k, ".pv-shared-text-with-see-more"@), seq![]),
    )
    &&& e.companyLetter is None
    &&& e.startDate is None
    &&& e.endDate is None
    &&& e.duration is None
    &&& e.skills@.len() == 0
}

/// The query `selector` inside the `k`-th listed entry.
fn listed_query(html: &str, k: usize, selector: &str) -> (r: Option<Vec<Vec<String>>>)
    ensures
        r.deep_view() == listed_texts(html@, k as int, selector@),
{
    select_match_texts(html, ".pvs-list__paged-list-item", k, selector)
}

/// The attribute `attr` of the matches of `selector` inside the `k`-th
/// listed entry.
fn listed_attr_query(html: &str, k: usize, selector: &str, attr: &str) -> (r: Option<Vec<Option<String>>>)
    ensures
        r.deep_view() == listed_attrs(html@, k as int, selector@, attr@),
{
    select_match_attrs(html, ".pvs-list__paged-list-item", k, selector, attr)
}

/// Reads the `k`-th entry of the experience list shown on the profile
/// itself, where it stands in the page.
pub fn parse_listed_experience(html: &str, k: usize) -> (r: Experience)
    ensures
        listed_experience(r, html@, k as int),
{
    proof {
        reveal_strlit("");
        assert(""@ =~= Seq::<char>::empty());
    }
    let company_url = first_attr_value(&listed_attr_query(html, k, "a.optional-action-target-wrapper", "href"));
    let company_id = last_segment_of(&company_url);
    let logo = first_attr_value(&listed_attr_query(html, k, "img", "src"));
    let position = first_text_piece(&listed_query(html, k, ".t-bold span"));
    let company = first_joined_text(&listed_query(html, k, "span.t-14.t-normal"), "");
    let (company_name, employment_type) = split_opt_around_dot(&company);
    let period = first_joined_text(&listed_query(html, k, "span.t-14.t-normal.t-black--light"), "");
    let (period_text, location) = split_opt_around_dot(&period);
    let description = trim_opt(
        first_joined_text(&listed_query(html, k, ".pv-shared-text-with-see-more"), ""),
    );
    Experience {
        companyName: company_name,
        companyId: company_id,
        companyLetter: None,
        companyURL: company_url,
        logo,
        position,
        employmentType: employment_type,
        periodText: period_text,
        startDate: None,
        endDate: None,
        duration: None,
        location,
        description,
        skills: Vec::new(),
    }
}

/// The entries of the experience list shown on the profile itself, each as
/// its HTML.
pub open spec fn listed_items(html: Seq<char>) -> Seq<Seq<char>> {
    matches_or_none(page_outer_html(html, listed_selector()))
}

/// Reads every entry of the experience list shown on the profile itself,
/// each where it stands in the page.
pub fn parse_each_experience(html: &str) -> (r: Vec<Experience>)
    ensures
        r@.len() == listed_items(html@).len(),
        forall|k: int| 0 <= k < r@.len() ==> #[trigger] listed_experience(r@[k], html@, k),
{
    let n = match select_outer_html(html, ".pvs-list__paged-list-item") {
        Some(m) => m.len(),
        None => 0,
    };
    let mut experiences: Vec<Experience> = Vec::new();
    let mut i: usize = 0;
    while i < n
        invariant
            i <= n,
            n == listed_items(html@).len(),
            experiences@.len() == i,
            forall|k: int| 0 <= k < i ==> #[trigger] listed_experience(experiences@[k], html@, k),
        decreases n - i,
    {
        let e = parse_listed_experience(html, i);
        experiences.push(e);
        i = i + 1;
    }
    experiences
}

proof fn lemma_split_pieces_free(s: Seq<char>, c: char, start: int, i: int)
    requires
        0 <= start <= i <= s.len(),
        forall|k: int| start <= k < i ==> s[k] != c,
    ensures
        forall|j: int, k: int|
            0 <= j < split_from(s, seq![c], start, i).len() && 0 <= k < split_from(s, seq![c], start, i)[j].len()
                ==> #[trigger] split_from(s, seq![c], start, i)[j][k] != c,
    decreases s.len() + 1 - i,
{
    let p = seq![c];
    if i + 1 > s.len() {
        let piece = s.subrange(start, s.len() as int);
        assert(split_from(s, p, start, i) == seq![piece]);
        assert forall|j: int, k: int|
            0 <= j < split_from(s, p, start, i).len() && 0 <= k < split_from(s, p, start, i)[j].len()
                implies #[trigger] split_from(s, p, start, i)[j][k] != c by {
            assert(split_from(s, p, start, i)[j] == piece);
            assert(piece[k] == s[start + k]);
        }
    } else if match_at(s, p, i) {
        lemma_split_pieces_free(s, c, i + 1, i + 1);
        let piece = s.subrange(start, i);
        let rest = split_from(s, p, i + 1, i + 1);
        assert(split_from(s, p, start, i) == seq![piece] + rest);
        assert forall|j: int, k: int|
            0 <= j < split_from(s, p, start, i).len() && 0 <= k < split_from(s, p, start, i)[j].len()
                implies #[trigger] split_from(s, p, start, i)[j][k] != c by {
            if j == 0 {
                assert(split_from(s, p, start, i)[0] == piece);
                assert(piece[k] == s[start + k]);
            } else {
                assert(split_from(s, p, start, i)[j] == rest[j - 1]);
            }
        }
    } else {
        assert(s.subrange(i, i + 1) =~= seq![s[i]]);
        assert(s[i] != c);
        lemma_split_pieces_free(s, c, start, i + 1);
        assert(split_from(s, p, start, i) == split_from(s, p, start, i + 1));
    }
}

proof fn lemma_join_free(parts: Seq<Seq<char>>, c: char)
    requires
        forall|j: int, k: int| 0 <= j < parts.len() && 0 <= k < parts[j].len() ==> #[trigger] parts[j][k] != c,
    ensures
        forall|k: int| 0 <= k < join(parts, seq![]).len() ==> #[trigger] join(parts, seq![])[k] != c,
    decreases parts.len(),
{
    if parts.len() > 1 {
        let d = parts.drop_last();
        assert forall|j: int, k: int| 0 <= j < d.len() && 0 <= k < d[j].len() implies #[trigger] d[j][k] != c by {
            assert(d[j] == parts[j]);
        }
        lemma_join_free(d, c);
        let a = join(d, seq![]);
        let l = parts.last();
        assert(join(parts, seq![]) =~= a + l);
        assert forall|k: int| 0 <= k < join(parts, seq![]).len() implies #[trigger] join(parts, seq![])[k] != c by {
            if k < a.len() {
                assert(join(parts, seq![])[k] == a[k]);
            } else {
                assert(join(parts, seq![])[k] == l[k - a.len()]);
                assert(parts[parts.len() - 1][k - a.len()] != c);
            }
        }
    } else if parts.len() == 1 {
        assert forall|k: int| 0 <= k < join(parts, seq![]).len() implies #[trigger] join(parts, seq![])[k] != c by {
            assert(parts[0][k] != c);
        }
    }
}

/// A company's id has no slash: all of them are taken out of its link.
pub proof fn law_company_id_has_no_slash(url: Option<Seq<char>>)
    ensures
        company_id_spec(url) matches Some(id) ==> forall|k: int| 0 <= k < id.len() ==> #[trigger] id[k] != '/',
{
    if let Some(u) = url {
        let a = replace(u, "https://www.linkedin.com/company/"@, seq![]);
        lemma_split_pieces_free(a, '/', 0, 0);
        lemma_join_free(split(a, seq!['/']), '/');
    }
}

/// A single-position entry names its company twice (name and letter), takes
/// the company's id from its company link, splits its caption around
/// `" · "` into period and duration, dates the period as `get_date` does,
/// and numbers its skills from 1.
pub proof fn law_single_position_entry(e: Experience, html: Seq<char>, k: int)
    requires
        single_entry(e, html, k),
    ensures
        opt_view(e.companyLetter) == opt_view(e.companyName),
        opt_view(e.companyId) == company_id_spec(opt_view(e.companyURL)),
        opt_view(e.periodText) == match entry_caption(html, k) {
            Some(c) => split_around_spec(c, dot_delimiter()).0,
            None => None,
        },
        opt_view(e.duration) == match entry_caption(html, k) {
            Some(c) => split_around_spec(c, dot_delimiter()).1,
            None => None,
        },
        (e.startDate, e.endDate) == period_bounds(opt_view(e.periodText)),
        forall|k: int| 0 <= k < e.skills@.len() ==> (#[trigger] e.skills@[k]).order == k + 1,
{
}

/// A position listed under a company takes every company field (name,
/// letter, employment type, id, link and logo) from the company's header,
/// has no location of its own, and dates its period as `get_date` does.
pub proof fn law_grouped_position_entry(e: Experience, html: Seq<char>, c: CompanyView)
    requires
        grouped_entry(e, html, c),
    ensures
        opt_view(e.companyName) == c.0,
        opt_view(e.companyLetter) == opt_view(e.companyName),
        opt_view(e.employmentType) == c.1,
        opt_view(e.companyId) == c.2,
        opt_view(e.companyURL) == c.3,
        opt_view(e.logo) == c.4,
        e.location is None,
        (e.startDate, e.endDate) == period_bounds(opt_view(e.periodText)),
        forall|k: int| 0 <= k < e.skills@.len() ==> (#[trigger] e.skills@[k]).order == k + 1,
{
}

} // verus!
