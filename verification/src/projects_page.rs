//! Reading Recruiter's project pages: the list of projects, a project in
//! the save-to-project search, a project among the profile's requisitions,
//! and a stage of a project's pipeline.
use vstd::prelude::*;
use vstd::string::*;
use crate::dom::{
    first_attr, first_joined, matches_or_none, page_attrs, page_inner_html, page_outer_html,
    page_texts, select_attrs, select_inner_html, select_outer_html, select_texts, string_views,
    join_strings,
};
use crate::error::CustomError;
use crate::decisions::{all_digits, digits_value, parse_i32_spec};
use crate::misc::{digit_char, digit_of, digit_value, is_digit, opt_view};
use crate::text::{chars_of, join, replace, replace_chars, string_from_chars, trim, trim_str, str_eq};

verus! {

/// A Recruiter project: its name, its id, whether it is archived, and its
/// place in the list of projects.
pub struct Project {
    pub name: String,
    pub id: String,
    pub archived: bool,
    pub order: u32,
}

/// The items of the projects page.
pub open spec fn project_items(body: Seq<char>) -> Seq<Seq<char>> {
    matches_or_none(page_outer_html(body, "li[data-test-paginated-list-item]"@))
}

/// The inner HTML of the first match, or the empty text.
pub open spec fn first_inner_or_empty(html: Seq<char>, selector: Seq<char>) -> Seq<char> {
    let ms = matches_or_none(page_inner_html(html, selector));
    if ms.len() > 0 {
        ms[0]
    } else {
        seq![]
    }
}

/// The name of a project item: the name span's HTML trimmed, without the
/// `<!---->` comment markers, trimmed again.
pub open spec fn project_name(item: Seq<char>) -> Seq<char> {
    trim(replace(trim(first_inner_or_empty(item, "h2.project-list-item__name > div > span"@)), "<!---->"@, seq![]))
}

/// The id of a project item: its card link without `/talent/hire/` and
/// `/overview`, trimmed; empty without a link or target.
pub open spec fn project_id(item: Seq<char>) -> Seq<char> {
    let hrefs = matches_or_none(page_attrs(item, "a.project-list-item__project-card-link"@, "href"@));
    let href = if hrefs.len() > 0 && hrefs[0] is Some {
        hrefs[0]->0
    } else {
        seq![]
    };
    trim(replace(replace(href, "/talent/hire/"@, seq![]), "/overview"@, seq![]))
}

/// A project item is archived when it shows the archived caption.
pub open spec fn project_archived(item: Seq<char>) -> bool {
    matches_or_none(page_texts(item, "span.project-lockup-title__item.t-12.t-black--light"@)).len() > 0
}

/// The project read from the item, with its place.
pub open spec fn project_of(p: Project, item: Seq<char>, order: int) -> bool {
    &&& p.name@ == project_name(item)
    &&& p.id@ == project_id(item)
    &&& p.archived == project_archived(item)
    &&& p.order == order
}

fn first_inner(html: &str, selector: &str) -> (r: String)
    ensures
        r@ == first_inner_or_empty(html@, selector@),
{
    match select_inner_html(html, selector) {
        Some(ms) => {
            if ms.len() > 0 {
                ms[0].clone()
            } else {
                String::new()
            }
        },
        None => String::new(),
    }
}

/// Reads a project item.
fn read_project(item: &str, order: u32) -> (r: Project)
    ensures
        project_of(r, item@, order as int),
{
    let empty: Vec<char> = Vec::new();
    assert(empty@ =~= seq![]);
    let raw = first_inner(item, "h2.project-list-item__name > div > span");
    let t = chars_of(trim_str(raw.as_str()).as_str());
    let comment = chars_of("<!---->");
    proof {
        reveal_strlit("<!---->");
        reveal_strlit("/talent/hire/");
        reveal_strlit("/overview");
    }
    let cleaned = replace_chars(t.as_slice(), comment.as_slice(), empty.as_slice());
    let name = trim_str(string_from_chars(cleaned.as_slice()).as_str());
    let hrefs = select_attrs(item, "a.project-list-item__project-card-link", "href");
    let href = match &hrefs {
        Some(h) => {
            if h.len() > 0 {
                match &h[0] {
                    Some(v) => v.clone(),
                    None => String::new(),
                }
            } else {
                String::new()
            }
        },
        None => String::new(),
    };
    let hc = chars_of(href.as_str());
    let hire = chars_of("/talent/hire/");
    let overview = chars_of("/overview");
    let a = replace_chars(hc.as_slice(), hire.as_slice(), empty.as_slice());
    let b = replace_chars(a.as_slice(), overview.as_slice(), empty.as_slice());
    let id = trim_str(string_from_chars(b.as_slice()).as_str());
    let archived = match select_texts(item, "span.project-lockup-title__item.t-12.t-black--light") {
        Some(m) => m.len() > 0,
        None => false,
    };
    Project { name, id, archived, order }
}

/// Reads the projects of a projects page, numbering them from `order` on;
/// `order` ends past the last. The numbers fit in a `u32`.
pub fn scrap_list(body: &str, order: &mut u32) -> (r: Result<Vec<Project>, CustomError>)
    requires
        *old(order) + project_items(body@).len() <= u32::MAX,
    ensures
        *final(order) == *old(order) + project_items(body@).len(),
        r matches Ok(ps) && ps@.len() == project_items(body@).len() && forall|k: int|
            0 <= k < ps@.len() ==> #[trigger] project_of(ps@[k], project_items(body@)[k], *old(order) + k),
{
    let items = match select_outer_html(body, "li[data-test-paginated-list-item]") {
        Some(v) => v,
        None => Vec::new(),
    };
    let ghost iv = project_items(body@);
    let ghost start = *order;
    assert(string_views(items@) =~= iv);
    let mut projects: Vec<Project> = Vec::new();
    let mut i: usize = 0;
    while i < items.len()
        invariant
            string_views(items@) == iv,
            iv.len() == items.len(),
            i <= items.len(),
            start + iv.len() <= u32::MAX,
            *order == start + i,
            start == *old(order),
            projects@.len() == i,
            forall|k: int| 0 <= k < i ==> #[trigger] project_of(projects@[k], iv[k], start + k),
        decreases items.len() - i,
    {
        assert(items@[i as int]@ == iv[i as int]);
        let p = read_project(items[i].as_str(), *order);
        projects.push(p);
        *order += 1;
        i = i + 1;
    }
    Ok(projects)
}

/// Reads the projects of a projects page, numbering them from `order` on;
/// `None`, with `order` unchanged, when their numbers would not fit in a
/// `u32`.
pub fn read_project_list(body: &str, order: &mut u32) -> (r: Option<Vec<Project>>)
    ensures
        *old(order) + project_items(body@).len() <= u32::MAX ==> *final(order) == *old(order)
            + project_items(body@).len(),
        *old(order) + project_items(body@).len() <= u32::MAX ==> (r matches Some(ps) && ps@.len()
            == project_items(body@).len() && forall|k: int|
            0 <= k < ps@.len() ==> #[trigger] project_of(ps@[k], project_items(body@)[k], *old(order) + k)),
        *old(order) + project_items(body@).len() > u32::MAX ==> (r is None && *final(order) == *old(order)),
{
    let n = match select_outer_html(body, "li[data-test-paginated-list-item]") {
        Some(v) => v.len(),
        None => 0,
    };
    if n > (u32::MAX - *order) as usize {
        return None;
    }
    match scrap_list(body, order) {
        Ok(ps) => Some(ps),
        Err(_) => None,
    }
}

/// The text of a match's text nodes run together and trimmed.
pub open spec fn concat_trim(ts: Seq<Seq<char>>) -> Seq<char> {
    trim(join(ts, seq![]))
}

/// Among the search results from the `i`-th on: the first whose project
/// name is `project`; its id when it has one, `None` when it lacks one
/// (`Some(None)`), none when no result has the name (`None`).
pub open spec fn result_scan(items: Seq<Seq<char>>, ids: Seq<Option<Seq<char>>>, project: Seq<char>, i: int) -> Option<Option<Seq<char>>>
    decreases items.len() - i,
{
    if i < 0 || i >= items.len() || i >= ids.len() {
        None
    } else {
        let names = matches_or_none(page_texts(items[i], "span.project-lockup-title__item.t-bold"@));
        if names.len() > 0 && concat_trim(names[0]) == project {
            Some(ids[i])
        } else {
            result_scan(items, ids, project, i + 1)
        }
    }
}

/// The project's search result, read from the results' HTML and ids side
/// by side.
pub open spec fn project_result_spec(html: Seq<char>, project: Seq<char>) -> Option<Option<Seq<char>>> {
    result_scan(
        matches_or_none(page_outer_html(html, "li.artdeco-typeahead__result.ember-view"@)),
        matches_or_none(page_attrs(html, "li.artdeco-typeahead__result.ember-view"@, "id"@)),
        project,
        0,
    )
}

fn concat_trim_text(ts: &Vec<String>) -> (r: String)
    ensures
        r@ == concat_trim(string_views(ts@)),
{
    proof {
        reveal_strlit("");
        assert(""@ =~= Seq::<char>::empty());
    }
    let joined = join_strings(ts, "");
    trim_str(joined.as_str())
}

/// Finds the project's search result as `project_result_spec` says.
fn scan_project_results(html: &str, project: &str) -> (r: Option<Option<String>>)
    ensures
        match project_result_spec(html@, project@) {
            Some(Some(id)) => r matches Some(Some(s)) && s@ == id,
            Some(None) => r == Some(None::<String>),
            None => r is None,
        },
{
    let items = match select_outer_html(html, "li.artdeco-typeahead__result.ember-view") {
        Some(v) => v,
        None => Vec::new(),
    };
    let ids = match select_attrs(html, "li.artdeco-typeahead__result.ember-view", "id") {
        Some(v) => v,
        None => Vec::new(),
    };
    let ghost iv = matches_or_none(page_outer_html(html@, "li.artdeco-typeahead__result.ember-view"@));
    let ghost dv = matches_or_none(page_attrs(html@, "li.artdeco-typeahead__result.ember-view"@, "id"@));
    assert(string_views(items@) =~= iv);
    assert(ids.deep_view() =~= dv);
    let mut i: usize = 0;
    while i < items.len() && i < ids.len()
        invariant
            string_views(items@) == iv,
            ids.deep_view() == dv,
            iv.len() == items.len(),
            dv.len() == ids.len(),
            project_result_spec(html@, project@) == result_scan(iv, dv, project@, i as int),
        decreases items.len() - i,
    {
        assert(items@[i as int]@ == iv[i as int]);
        let names = select_texts(items[i].as_str(), "span.project-lockup-title__item.t-bold");
        let found = match &names {
            Some(m) => {
                if m.len() > 0 {
                    proof {
                        assert(m@[0].deep_view() =~= string_views(m@[0]@));
                    }
                    let n = concat_trim_text(&m[0]);
                    str_eq(n.as_str(), project)
                } else {
                    false
                }
            },
            None => false,
        };
        if found {
            return match &ids[i] {
                Some(id) => Some(Some(id.clone())),
                None => Some(None),
            };
        }
        i = i + 1;
    }
    None
}

/// Finds the id of the project's entry among the save-to-project search
/// results: the first result whose name is `project`; an error when none
/// is. The result found has an id.
pub fn find_project_id_in_list(html: &str, project: &str) -> (r: Result<String, CustomError>)
    requires
        project_result_spec(html@, project@) != Some(None::<Seq<char>>),
    ensures
        match project_result_spec(html@, project@) {
            Some(id) => r matches Ok(s) && Some(s@) == id,
            None => r matches Err(CustomError::ButtonNotFound(e)) && e@
                == "Project ID is not found  not found"@,
        },
{
    match scan_project_results(html, project) {
        Some(Some(id)) => Ok(id),
        _ => Err(CustomError::ButtonNotFound(String::from_str("Project ID is not found  not found"))),
    }
}

/// Finds the id of the project's entry among the search results; `None`
/// when the result with that name has no id.
pub fn locate_project_in_list(html: &str, project: &str) -> (r: Option<Result<String, CustomError>>)
    ensures
        match project_result_spec(html@, project@) {
            Some(Some(id)) => r matches Some(Ok(s)) && s@ == id,
            Some(None) => r is None,
            None => r matches Some(Err(CustomError::ButtonNotFound(e))) && e@
                == "Project ID is not found  not found"@,
        },
{
    if let Some(None) = scan_project_results(html, project) {
        return None;
    }
    Some(find_project_id_in_list(html, project))
}

/// Among the requisition blocks from the `i`-th on: the id of the first
/// whose name's link reads `name` and has an id.
pub open spec fn requisition_scan(blocks: Seq<Seq<char>>, name: Seq<char>, i: int) -> Option<Seq<char>>
    decreases blocks.len() - i,
{
    if i < 0 || i >= blocks.len() {
        None
    } else {
        let names = matches_or_none(page_outer_html(blocks[i], "span.topcard-requisitions__name"@));
        let found = if names.len() > 0 {
            let texts = matches_or_none(page_texts(names[0], "a.ember-view"@));
            let ids = matches_or_none(page_attrs(names[0], "a.ember-view"@, "id"@));
            if texts.len() > 0 && concat_trim(texts[0]) == name && ids.len() > 0 {
                ids[0]
            } else {
                None
            }
        } else {
            None
        };
        if found is Some {
            found
        } else {
            requisition_scan(blocks, name, i + 1)
        }
    }
}

/// The requisition blocks of a profile's project card.
pub open spec fn requisition_blocks(html: Seq<char>) -> Seq<Seq<char>> {
    matches_or_none(page_outer_html(html, "div.topcard-requisitions__item-block"@))
}

/// The id of a requisition block's link when it reads `name`.
fn block_link_id(block: &str, name: &str) -> (r: Option<String>)
    ensures
        opt_view(r) == {
            let names = matches_or_none(page_outer_html(block@, "span.topcard-requisitions__name"@));
            if names.len() > 0 {
                let texts = matches_or_none(page_texts(names[0], "a.ember-view"@));
                let ids = matches_or_none(page_attrs(names[0], "a.ember-view"@, "id"@));
                if texts.len() > 0 && concat_trim(texts[0]) == name@ && ids.len() > 0 {
                    ids[0]
                } else {
                    None
                }
            } else {
                None
            }
        },
{
    let names = match select_outer_html(block, "span.topcard-requisitions__name") {
        Some(v) => v,
        None => Vec::new(),
    };
    assert(string_views(names@) =~= matches_or_none(page_outer_html(block@, "span.topcard-requisitions__name"@)));
    if names.len() == 0 {
        return None;
    }
    let ne = names[0].as_str();
    assert(ne@ == string_views(names@)[0]);
    let texts = match select_texts(ne, "a.ember-view") {
        Some(v) => v,
        None => Vec::new(),
    };
    let ids = match select_attrs(ne, "a.ember-view", "id") {
        Some(v) => v,
        None => Vec::new(),
    };
    assert(texts.deep_view() =~= matches_or_none(page_texts(ne@, "a.ember-view"@)));
    assert(ids.deep_view() =~= matches_or_none(page_attrs(ne@, "a.ember-view"@, "id"@)));
    if texts.len() == 0 || ids.len() == 0 {
        return None;
    }
    proof {
        assert(texts@[0].deep_view() =~= string_views(texts@[0]@));
    }
    let link_text = concat_trim_text(&texts[0]);
    if str_eq(link_text.as_str(), name) {
        match &ids[0] {
            Some(id) => Some(id.clone()),
            None => None,
        }
    } else {
        None
    }
}

/// Finds the id of the project `project_name` among the profile's
/// requisitions: the first block whose name's link reads it and has an id;
/// an error when none does.
pub fn find_project_id(html: &str, project_name: &str) -> (r: Result<String, CustomError>)
    ensures
        match requisition_scan(requisition_blocks(html@), project_name@, 0) {
            Some(id) => r matches Ok(s) && s@ == id,
            None => r matches Err(CustomError::ButtonNotFound(e)) && e@
                == "Project not found in the list/Change Stage"@,
        },
{
    let blocks = match select_outer_html(html, "div.topcard-requisitions__item-block") {
        Some(v) => v,
        None => Vec::new(),
    };
    let ghost bv = requisition_blocks(html@);
    assert(string_views(blocks@) =~= bv);
    let mut i: usize = 0;
    while i < blocks.len()
        invariant
            string_views(blocks@) == bv,
            bv == requisition_blocks(html@),
            bv.len() == blocks.len(),
            requisition_scan(bv, project_name@, 0) == requisition_scan(bv, project_name@, i as int),
        decreases blocks.len() - i,
    {
        assert(blocks@[i as int]@ == bv[i as int]);
        if let Some(id) = block_link_id(blocks[i].as_str(), project_name) {
            return Ok(id);
        }
        i = i + 1;
    }
    Err(CustomError::ButtonNotFound(String::from_str("Project not found in the list/Change Stage")))
}

/// The decimal text of `n`.
pub open spec fn decimal(n: nat) -> Seq<char>
    decreases n,
{
    if n < 10 {
        seq![digit_char(n as int)]
    } else {
        decimal(n / 10) + seq![digit_char((n % 10) as int)]
    }
}

/// The decimal text of `n`.
pub fn decimal_text(n: usize) -> (r: Vec<char>)
    ensures
        r@ == decimal(n as nat),
    decreases n,
{
    if n < 10 {
        let mut v: Vec<char> = Vec::new();
        v.push(digit_of(n as u8));
        assert(v@ =~= decimal(n as nat));
        v
    } else {
        let mut v = decimal_text(n / 10);
        v.push(digit_of((n % 10) as u8));
        assert(v@ =~= decimal(n as nat));
        v
    }
}

/// Among the pipeline's stages from the `i`-th on: the place, counted from
/// 1, of the first whose name reads `stage_name`.
pub open spec fn stage_scan(stages: Seq<Seq<char>>, stage_name: Seq<char>, i: int) -> Option<int>
    decreases stages.len() - i,
{
    if i < 0 || i >= stages.len() {
        None
    } else {
        let names = matches_or_none(page_texts(stages[i], "p[class='t-14.t-black--light']"@));
        if names.len() > 0 && trim(concat_trim(names[0])) == stage_name {
            Some(i + 1)
        } else {
            stage_scan(stages, stage_name, i + 1)
        }
    }
}

/// The stages of a project's pipeline.
pub open spec fn pipeline_stages(html: Seq<char>) -> Seq<Seq<char>> {
    matches_or_none(page_outer_html(html, "li[class='requisition-pipeline-activity__stage']"@))
}

/// Finds the selector of the pipeline stage `stage_name`: the stage's place
/// among the stages as an `nth-of-type`; an error when no stage has that
/// name.
pub fn _find_stage_selector(html: &str, stage_name: &str) -> (r: Result<String, CustomError>)
    ensures
        match stage_scan(pipeline_stages(html@), stage_name@, 0) {
            Some(n) => r matches Ok(s) && s@ == "li.requisition-pipeline-activity__stage:nth-of-type("@
                + decimal(n as nat) + seq![')'],
            None => r matches Err(CustomError::ButtonNotFound(e)) && e@
                == "Can't stage selector/Change stage"@,
        },
{
    let stages = match select_outer_html(html, "li[class='requisition-pipeline-activity__stage']") {
        Some(v) => v,
        None => Vec::new(),
    };
    let ghost sv = pipeline_stages(html@);
    assert(string_views(stages@) =~= sv);
    let mut i: usize = 0;
    while i < stages.len()
        invariant
            string_views(stages@) == sv,
            sv == pipeline_stages(html@),
            sv.len() == stages.len(),
            stage_scan(sv, stage_name@, 0) == stage_scan(sv, stage_name@, i as int),
        decreases stages.len() - i,
    {
        assert(stages@[i as int]@ == sv[i as int]);
        let names = match select_texts(stages[i].as_str(), "p[class='t-14.t-black--light']") {
            Some(v) => v,
            None => Vec::new(),
        };
        assert(names.deep_view() =~= matches_or_none(page_texts(sv[i as int], "p[class='t-14.t-black--light']"@)));
        if names.len() > 0 {
            proof {
                assert(names@[0].deep_view() =~= string_views(names@[0]@));
            }
            let name_text = concat_trim_text(&names[0]);
            let again = trim_str(name_text.as_str());
            if str_eq(again.as_str(), stage_name) {
                let digits = decimal_text(i + 1);
                let mut sel = String::from_str("li.requisition-pipeline-activity__stage:nth-of-type(");
                sel.append(string_from_chars(digits.as_slice()).as_str());
                sel.append(")");
                proof {
                    reveal_strlit(")");
                    assert(")"@ =~= seq![')']);
                }
                return Ok(sel);
            }
        }
        i = i + 1;
    }
    Err(CustomError::ButtonNotFound(String::from_str("Can't stage selector/Change stage")))
}

proof fn lemma_digit_value(d: int)
    requires
        0 <= d <= 9,
    ensures
        digit_value(digit_char(d)) == d,
        is_digit(digit_char(d)),
{
    assert(('0' as int) == 48);
    assert(('1' as int) == 49);
    assert(('2' as int) == 50);
    assert(('3' as int) == 51);
    assert(('4' as int) == 52);
    assert(('5' as int) == 53);
    assert(('6' as int) == 54);
    assert(('7' as int) == 55);
    assert(('8' as int) == 56);
    assert(('9' as int) == 57);
}

proof fn lemma_decimal_digits(n: nat)
    ensures
        decimal(n).len() > 0,
        all_digits(decimal(n)),
        digits_value(decimal(n)) == n,
    decreases n,
{
    if n < 10 {
        lemma_digit_value(n as int);
        assert(decimal(n) =~= seq![digit_char(n as int)]);
        assert(decimal(n).drop_last() =~= Seq::<char>::empty());
        assert(digits_value(decimal(n).drop_last()) == 0);
        assert(decimal(n).last() == digit_char(n as int));
        assert(digits_value(decimal(n)) == digits_value(decimal(n).drop_last()) * 10 + digit_value(decimal(n).last()));
    } else {
        lemma_digit_value((n % 10) as int);
        lemma_decimal_digits(n / 10);
        let d = decimal(n / 10);
        assert(decimal(n).drop_last() =~= d);
        assert(decimal(n).last() == digit_char((n % 10) as int));
        assert forall|i: int| 0 <= i < decimal(n).len() implies is_digit(#[trigger] decimal(n)[i]) by {
            if i < d.len() {
                assert(decimal(n)[i] == d[i]);
            }
        }
        assert(n == (n / 10) * 10 + n % 10);
        assert(digits_value(decimal(n)) == digits_value(decimal(n).drop_last()) * 10 + digit_value(decimal(n).last()));
        assert(digits_value(decimal(n)) == digits_value(d) * 10 + digit_value(digit_char((n % 10) as int)));
    }
}

/// The decimal text of a number reads back as that number: `str::parse`
/// gives again every number up to `i32::MAX` that `decimal` writes.
pub proof fn law_decimal_parses_back(n: nat)
    requires
        n <= i32::MAX,
    ensures
        parse_i32_spec(decimal(n)) == Some(n as i32),
{
    lemma_decimal_digits(n);
    assert(is_digit(decimal(n)[0]));
}

} // verus!
