use web_crawler::decisions::{
    inbox_actions, interested_followup, message_category, pages_from_label, parse_i32_chars,
    recruiter_candidate_count, recruiter_cookie_valid, regular_candidate_count, session_cookie_valid,
    LoginMarkers, MessageCategory,
};
use web_crawler::evaluate::{
    eval, filter_priority, group_filters, run_evaluation, sort_filters, update_list_filter,
    Condition, EvaluateProfile, Filter,
};
use web_crawler::keyword_filter::{
    check_keywords_in_groups, keyword, parse_keywords, parse_linkedin_sections, section_from_str,
    Condition as KCondition, EntryKeyword, FilterGroup as KGroup, Filters, InclusionIndicator,
    LinkedinSection, LinkedinSections, Response, ResponseData,
};

fn filter(name: &str, condition: Condition) -> Filter {
    Filter { filter: name.to_string(), condition, response_key: None }
}

#[test]
fn filter_priority_ranks_known_filters() {
    assert_eq!(filter_priority("Total years of experience"), 1);
    assert_eq!(filter_priority("Keyword"), 6);
    assert_eq!(filter_priority("Months in current position"), 7);
    assert_eq!(filter_priority("Something else"), 255);
}

#[test]
fn update_filter_sets_response_key() {
    let mut f = filter("Recent skill", Condition::AND);
    let u = f.update_filter();
    assert_eq!(u.response_key, Some("Type of skill/s".to_string()));
    let list = update_list_filter(vec![filter("Nope", Condition::OR)]);
    assert_eq!(list[0].response_key, Some("Invalid filter type".to_string()));
}

#[test]
fn sort_filters_is_stable_by_priority() {
    let mut fs = vec![
        filter("Keyword", Condition::AND),
        filter("Other", Condition::AND),
        filter("Job title", Condition::OR),
        filter("Total years of experience", Condition::AND),
        filter("Job title", Condition::AND),
    ];
    sort_filters(&mut fs);
    let names: Vec<(String, Condition)> = fs.iter().map(|f| (f.filter.clone(), f.condition)).collect();
    assert_eq!(
        names,
        vec![
            ("Total years of experience".to_string(), Condition::AND),
            ("Job title".to_string(), Condition::OR),
            ("Job title".to_string(), Condition::AND),
            ("Keyword".to_string(), Condition::AND),
            ("Other".to_string(), Condition::AND),
        ]
    );
}

#[test]
fn grouping_closes_groups_at_or() {
    let groups = group_filters(vec![
        filter("A", Condition::AND),
        filter("B", Condition::OR),
        filter("C", Condition::AND),
    ]);
    assert_eq!(groups.len(), 2);
    assert_eq!(groups[0].filters.len(), 2);
    assert_eq!(groups[1].filters[0].filter, "C");
    let flat: Vec<String> = groups.iter().flat_map(|g| g.filters.iter().map(|f| f.filter.clone())).collect();
    assert_eq!(flat, vec!["A", "B", "C"]);
}

#[test]
fn evaluation_of_groups() {
    let keyed = |k: &str, c: Condition| Filter {
        filter: "x".to_string(),
        condition: c,
        response_key: Some(k.to_string()),
    };
    let make = || group_filters(vec![keyed("Skill level", Condition::OR), keyed("Job title", Condition::AND)]);
    assert!(run_evaluation(make(), vec!["Job title".to_string()]));
    assert!(run_evaluation(make(), vec!["Skill level".to_string()]));
    assert!(!run_evaluation(make(), vec!["Skill level".to_string(), "Job title".to_string()]));
}

#[test]
fn eval_runs_the_whole_evaluation() {
    let entry = EvaluateProfile {
        profile_id: "p".to_string(),
        filters: vec![filter("Job title", Condition::AND), filter("Skill", Condition::AND)],
        reasons: vec!["Skill level".to_string()],
    };
    assert!(!eval(entry));
    let entry = EvaluateProfile {
        profile_id: "p".to_string(),
        filters: vec![filter("Job title", Condition::AND)],
        reasons: vec![],
    };
    assert!(eval(entry));
}

#[test]
fn sections_parse_by_name() {
    assert_eq!(section_from_str("Current position"), Ok(LinkedinSections::CurrentPosition));
    assert_eq!(section_from_str("Hobbies"), Err("Unknown LinkedIn section: Hobbies".to_string()));
    assert_eq!(
        parse_linkedin_sections("Headline, Skills"),
        Ok(vec![LinkedinSections::Headline, LinkedinSections::Skills])
    );
    assert!(parse_linkedin_sections("Headline, Bogus").is_err());
}

#[test]
fn keywords_are_trimmed() {
    assert_eq!(parse_keywords(" rust , go,c++ "), vec!["rust", "go", "c++"]);
}

fn kfilter(words: &[&str], sections: Vec<LinkedinSections>, inc: InclusionIndicator, c: KCondition) -> Filters {
    Filters {
        keywords: words.iter().map(|w| w.to_string()).collect(),
        linkedin_sections: sections,
        inclusion_indicator: inc,
        condition: c,
    }
}

fn sections() -> Vec<LinkedinSection> {
    vec![
        LinkedinSection { text: Some("Senior RUST engineer".to_string()), linkedin_sections: LinkedinSections::Headline },
        LinkedinSection { text: None, linkedin_sections: LinkedinSections::Summary },
    ]
}

#[test]
fn keyword_groups_match_case_insensitively() {
    let groups = vec![KGroup {
        filters: vec![kfilter(&["rust"], vec![LinkedinSections::Headline], InclusionIndicator::IsContained, KCondition::AND)],
    }];
    assert!(check_keywords_in_groups(groups, sections()).is_some());
    let groups = vec![KGroup {
        filters: vec![kfilter(&["java"], vec![LinkedinSections::Headline], InclusionIndicator::IsContained, KCondition::AND)],
    }];
    assert!(check_keywords_in_groups(groups, sections()).is_none());
}

#[test]
fn keyword_missing_section_does_not_match() {
    let groups = vec![KGroup {
        filters: vec![kfilter(&["x"], vec![LinkedinSections::Skills], InclusionIndicator::NotContained, KCondition::OR)],
    }];
    assert!(check_keywords_in_groups(groups, sections()).is_none());
}

#[test]
fn keyword_entry_checks_all_groups() {
    let entry = EntryKeyword {
        filters: vec![
            kfilter(&["java"], vec![LinkedinSections::Headline], InclusionIndicator::IsContained, KCondition::OR),
            kfilter(&["python"], vec![LinkedinSections::Headline], InclusionIndicator::NotContained, KCondition::AND),
        ],
        linkedin_sections: Response { status: "ok".to_string(), response: ResponseData { sections: sections() } },
    };
    assert!(keyword(entry));
}

#[test]
fn session_cookie_valid_without_login_prompts() {
    let none = LoginMarkers {
        email_input: false,
        email_input_another: false,
        sign_in_button: false,
        sign_in_main_screen: false,
        sign_in_main_screen_another: false,
    };
    assert!(session_cookie_valid(&none));
    let prompt = LoginMarkers { sign_in_button: true, ..none };
    assert!(!session_cookie_valid(&prompt));
}

#[test]
fn recruiter_cookie_rejects_sign_in_heading() {
    assert!(recruiter_cookie_valid(None));
    assert!(!recruiter_cookie_valid(Some("  Sign in to LinkedIn Talent Solutions ")));
    assert!(recruiter_cookie_valid(Some("Projects")));
}

#[test]
fn parse_i32_like_std() {
    let p = |s: &str| parse_i32_chars(&s.chars().collect::<Vec<char>>());
    assert_eq!(p("42"), Some(42));
    assert_eq!(p("-7"), Some(-7));
    assert_eq!(p("+3"), Some(3));
    assert_eq!(p("2147483648"), None);
    assert_eq!(p("-2147483648"), Some(i32::MIN));
    assert_eq!(p("1a"), None);
    assert_eq!(p(""), None);
}

#[test]
fn candidate_counts() {
    assert_eq!(pages_from_label("Page 12"), 12);
    assert_eq!(regular_candidate_count("About 1,234 results"), 1000);
    assert_eq!(regular_candidate_count("About 234 results"), 234);
    assert_eq!(regular_candidate_count("No results"), 1002);
    assert_eq!(recruiter_candidate_count("2K results"), 1000);
    assert_eq!(recruiter_candidate_count("87 results"), 87);
}

#[test]
fn message_categories() {
    assert_eq!(message_category(Some("Interested")), MessageCategory::Interested);
    assert_eq!(message_category(Some("Not interested")), MessageCategory::NotInterested);
    assert_eq!(message_category(Some("maybe")), MessageCategory::NotFound);
    assert_eq!(message_category(None), MessageCategory::NotFound);
}

#[test]
fn inbox_actions_after_a_new_message() {
    let a = inbox_actions(true, Some(true), true, true);
    assert!(a.evaluate);
    let a = inbox_actions(false, Some(true), false, true);
    assert!(a.mark_unread);
    let (star, unread) = interested_followup(MessageCategory::Interested, true);
    assert!(star && unread);
    assert_eq!(interested_followup(MessageCategory::NotFound, true), (false, false));
}

#[test]
fn sorting_keeps_the_order_within_a_rank() {
    let mut fs = vec![
        filter("Keyword", Condition::AND),
        filter("Skill", Condition::OR),
        filter("Other", Condition::AND),
        filter("Skill", Condition::AND),
    ];
    sort_filters(&mut fs);
    let got: Vec<(String, bool)> =
        fs.iter().map(|f| (f.filter.clone(), matches!(f.condition, Condition::OR))).collect();
    assert_eq!(
        got,
        vec![
            ("Skill".to_string(), true),
            ("Skill".to_string(), false),
            ("Keyword".to_string(), false),
            ("Other".to_string(), false),
        ]
    );
}

#[test]
fn group_count_follows_the_or_filters() {
    let closed = group_filters(vec![filter("A", Condition::AND), filter("B", Condition::OR)]);
    assert_eq!(closed.len(), 1);
    let open = group_filters(vec![
        filter("A", Condition::OR),
        filter("B", Condition::OR),
        filter("C", Condition::AND),
    ]);
    assert_eq!(open.len(), 3);
    assert_eq!(group_filters(vec![]).len(), 0);
}
