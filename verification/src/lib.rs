//! Verified core of a LinkedIn automation service: the text handling, the
//! profile and date parsing, the filter evaluation and the decisions that the
//! browser flows take.
pub mod conversation_list;
pub mod decisions;
pub mod dom;
pub mod education_page;
pub mod education_section;
pub mod entry;
pub mod experience_page;
pub mod error;
pub mod evaluate;
pub mod inmail_flow;
pub mod inmail_page;
pub mod keyword_filter;
pub mod message_flow;
pub mod messages_page;
pub mod messaging;
pub mod misc;
pub mod opening;
pub mod names;
pub mod profile;
pub mod profile_flow;
pub mod profile_page;
pub mod profile_record;
pub mod projects_page;
pub mod recruiter_page;
pub mod replies;
pub mod search_page;
pub mod search_paging;
pub mod text;
pub mod urls;
