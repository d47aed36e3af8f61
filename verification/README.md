# web_crawler

A LinkedIn automation service: it sends connection requests, messages and
InMails, withdraws pending requests, reads the inboxes, the connections and
people searches, and turns PhantomBuster exports into profile records.

The library under `src/` is verified with Verus. It reads every page the
service looks at and takes the decisions of its flows:

- `dom`, `text`, `urls`, `misc`, `names`: HTML queries through scraper,
  string handling, URL and URN extraction, period captions and dates, names.
- `profile_page`, `experience_page`, `education_page`, `education_section`,
  `profile_record`, `profile`: the fields of a profile page and the profile
  records sent on.
- `messages_page`, `conversation_list`, `inmail_page`, `recruiter_page`,
  `search_page`, `projects_page`: the inbox, InMail, Recruiter, search and
  project pages.
- `evaluate`, `keyword_filter`: the evaluation of a profile against the
  account's filters.
- `search_paging`: the paging of the people searches and the batches in
  which their links are sent on.
- `opening`, `profile_flow`, `inmail_flow`, `message_flow`, `decisions`,
  `replies`: the browser flows as machines from stage and probe result to
  the next stage or the ending, and the decisions taken on what a page
  shows.

`app/` is the HTTP service around it (axum routes, the WebDriver browser,
the webhooks): it performs what the library names and hands back what the
browser saw. `tests/` exercises the library on concrete pages and inputs.
