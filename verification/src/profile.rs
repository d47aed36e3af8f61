//! Profiles, their education and experience entries, and the conversion of
//! profiles exported by PhantomBuster into the crawler's profile record.
use vstd::prelude::*;
use vstd::string::*;
use crate::entry::{PhantomJobs, PhantomJsonProfile, PhantomSchools};
use crate::error::CustomError;
use crate::misc::{get_date, get_date_spec, opt_view};
use crate::urls::{extract_nick, extract_number, last_piece_spec, number_spec};

verus! {

#[derive(Debug)]
pub struct Education {
    pub id: Option<String>,
    pub schoolName: Option<String>,
    pub logoUrl: Option<String>,
    pub degreeName: Option<String>,
    pub fieldOfStudy: Option<String>,
    pub periodText: Option<String>,
    pub startDate: Option<i64>,
    pub endDate: Option<i64>,
    pub description: Option<String>,
}

#[derive(Debug)]
pub struct Skill {
    pub order: i8,
    pub skill: Option<String>,
}

#[derive(Debug)]
pub struct Experience {
    pub companyName: Option<String>,
    pub companyId: Option<String>,
    pub companyLetter: Option<String>,
    pub companyURL: Option<String>,
    pub logo: Option<String>,
    pub position: Option<String>,
    pub employmentType: Option<String>,
    pub periodText: Option<String>,
    pub startDate: Option<i64>,
    pub endDate: Option<i64>,
    pub duration: Option<String>,
    pub location: Option<String>,
    pub description: Option<String>,
    pub skills: Vec<Skill>,
}

/// An experience entry as the PhantomBuster export is sent on: without skills.
#[derive(Debug)]
pub struct SerializedExperience {
    pub companyName: Option<String>,
    pub companyId: Option<String>,
    pub companyLetter: Option<String>,
    pub companyURL: Option<String>,
    pub logo: Option<String>,
    pub position: Option<String>,
    pub employmentType: Option<String>,
    pub periodText: Option<String>,
    pub startDate: Option<i64>,
    pub endDate: Option<i64>,
    pub duration: Option<String>,
    pub location: Option<String>,
    pub description: Option<String>,
}

/// The profile record that the crawler sends for a scraped profile.
#[derive(Debug)]
pub struct Profile {
    pub AI: bool,
    pub linkedin: Option<String>,
    pub first: Option<String>,
    pub last: Option<String>,
    pub email: Option<String>,
    pub job: Option<String>,
    pub sourcer: Option<String>,
    pub title: Option<String>,
    pub linkedin_unique: Option<String>,
    pub linkedin_unique_number: Option<String>,
    pub connectionLevel: Option<i32>,
    pub company: Option<String>,
    pub company_unique: Option<String>,
    pub about: Option<String>,
    pub profilePicture: Option<String>,
    pub education: Vec<Education>,
    pub experience: Vec<Experience>,
    pub viewedIn: Option<String>,
    pub location: Option<String>,
    pub entityUrn: Option<String>,
    pub extension_version: Option<String>,
    pub timestamp: Option<String>,
    pub search_url: Option<String>,
    pub profile_url_id: String,
}

/// The profile record made from a PhantomBuster export.
#[derive(Debug)]
pub struct SerializedProfile {
    pub AI: bool,
    pub linkedin: Option<String>,
    pub first: Option<String>,
    pub last: Option<String>,
    pub email: Option<String>,
    pub job: Option<String>,
    pub sourcer: Option<String>,
    pub title: Option<String>,
    pub linkedin_unique: Option<String>,
    pub linkedin_unique_number: Option<String>,
    pub connectionLevel: Option<i32>,
    pub company: Option<String>,
    pub company_unique: Option<String>,
    pub about: Option<String>,
    pub profilePicture: Option<String>,
    pub education: Vec<Education>,
    pub experience: Vec<SerializedExperience>,
    pub viewedIn: Option<String>,
    pub location: Option<String>,
    pub entityUrn: Option<String>,
    pub extension_version: Option<String>,
    pub timestamp: Option<String>,
    pub search_url: Option<String>,
}

pub fn clone_opt(o: &Option<String>) -> (r: Option<String>)
    ensures
        r == *o,
{
    match o {
        Some(s) => Some(s.clone()),
        None => None,
    }
}

fn as_deref(o: &Option<String>) -> (r: Option<&str>)
    ensures
        match r {
            Some(s) => o matches Some(x) && s@ == x@,
            None => o is None,
        },
{
    match o {
        Some(s) => Some(s.as_str()),
        None => None,
    }
}

/// The dates that a period caption gives, as `get_date` computes them.
pub open spec fn period_dates(range: Option<String>) -> Result<Seq<Option<i64>>, Seq<char>> {
    get_date_spec(opt_view(range))
}

pub open spec fn opt_number(url: Option<String>) -> Option<Seq<char>> {
    match url {
        Some(u) => number_spec(u@),
        None => None,
    }
}

/// The education entry made from an exported school: its id is the number at
/// the end of the school's URL and its dates those of its period.
pub open spec fn education_of_school(e: Education, s: PhantomSchools) -> bool {
    &&& opt_view(e.id) == opt_number(s.schoolUrl)
    &&& e.schoolName == s.schoolName
    &&& e.logoUrl == s.logoUrl
    &&& e.degreeName == s.degree
    &&& e.fieldOfStudy is None
    &&& e.periodText == s.dateRange
    &&& period_dates(s.dateRange) matches Ok(d) && e.startDate == d[0] && e.endDate == d[1]
    &&& e.description == s.description
}

/// The message of an exported entry whose period does not give dates.
pub open spec fn date_vec_error() -> Seq<char> {
    "Date vec is error"@
}

/// The education entries of an exported profile's schools, one per school;
/// never an error, since every period gives dates (perhaps none).
pub fn to_education(schools: Option<Vec<PhantomSchools>>) -> (r: Result<Vec<Education>, CustomError>)
    ensures
        r is Ok,
        match schools {
            None => r matches Ok(v) && v@.len() == 0,
            Some(ss) => if forall|i: int| 0 <= i < ss@.len() ==> (#[trigger] period_dates(ss@[i].dateRange)) is Ok {
                r matches Ok(v) && v@.len() == ss@.len() && forall|i: int|
                    0 <= i < ss@.len() ==> #[trigger] education_of_school(v@[i], ss@[i])
            } else {
                r matches Err(CustomError::ButtonNotFound(m)) && m@ == date_vec_error()
            },
        },
{
    if schools.is_none() {
        return Ok(Vec::new());
    }
    let list = schools.unwrap();
    let ghost ss = list@;
    let n = list.len();
    let mut education: Vec<Education> = Vec::new();
    let mut rest = list;
    let mut i: usize = 0;
    while rest.len() > 0
        invariant
            i <= ss.len(),
            n == ss.len(),
            schools matches Some(x) && x@ == ss,
            rest@ == ss.skip(i as int),
            education@.len() == i,
            forall|k: int| 0 <= k < i ==> (#[trigger] period_dates(ss[k].dateRange)) is Ok,
            forall|k: int| 0 <= k < i ==> #[trigger] education_of_school(education@[k], ss[k]),
        decreases rest.len(),
    {
        let school = rest.remove(0);
        assert(school == ss[i as int]);
        let date = clone_opt(&school.dateRange);
        let new_vec = get_date(as_deref(&date));
        let date_vec = match new_vec {
            Ok(value) => value,
            Err(_) => {
                proof {
                    assert(!(period_dates(ss[i as int].dateRange) is Ok));
                }
                return Err(CustomError::ButtonNotFound(String::from_str("Date vec is error")));
            },
        };
        let edu = Education {
            id: extract_number(school.schoolUrl),
            schoolName: school.schoolName,
            logoUrl: school.logoUrl,
            degreeName: school.degree,
            fieldOfStudy: None,
            periodText: school.dateRange,
            startDate: date_vec[0],
            endDate: date_vec[1],
            description: school.description,
        };
        let ghost before = education@;
        education.push(edu);
        proof {
            assert(education_of_school(education@[i as int], ss[i as int]));
            assert forall|k: int| 0 <= k < i implies #[trigger] education_of_school(education@[k], ss[k]) by {
                assert(education@[k] == before[k]);
            }
        }
        i = i + 1;
        assert(rest@ =~= ss.skip(i as int));
    }
    Ok(education)
}

/// The experience entry made from an exported job.
pub open spec fn experience_of_job(e: SerializedExperience, j: PhantomJobs) -> bool {
    &&& e.companyName == j.companyName
    &&& opt_view(e.companyId) == opt_number(j.companyUrl)
    &&& e.companyURL == j.companyUrl
    &&& e.companyLetter == j.companyName
    &&& e.logo == j.logoUrl
    &&& e.position == j.jobTitle
    &&& e.employmentType is None
    &&& e.periodText == j.dateRange
    &&& period_dates(j.dateRange) matches Ok(d) && e.startDate == d[0] && e.endDate == d[1]
    &&& e.duration == j.duration
    &&& e.location == j.location
    &&& e.description == j.description
}

/// The experience entries of an exported profile's jobs, one per job, with
/// its company's name; never an error, since every period gives dates
/// (perhaps none).
pub fn to_experience(jobs: Option<Vec<PhantomJobs>>) -> (r: Result<Vec<SerializedExperience>, CustomError>)
    ensures
        r is Ok,
        match jobs {
            None => r matches Ok(v) && v@.len() == 0,
            Some(js) => if forall|i: int| 0 <= i < js@.len() ==> (#[trigger] period_dates(js@[i].dateRange)) is Ok {
                r matches Ok(v) && v@.len() == js@.len() && forall|i: int|
                    0 <= i < js@.len() ==> #[trigger] experience_of_job(v@[i], js@[i])
            } else {
                r matches Err(CustomError::ButtonNotFound(m)) && m@ == date_vec_error()
            },
        },
{
    if jobs.is_none() {
        return Ok(Vec::new());
    }
    let list = jobs.unwrap();
    let ghost js = list@;
    let n = list.len();
    let mut experience: Vec<SerializedExperience> = Vec::new();
    let mut rest = list;
    let mut i: usize = 0;
    while rest.len() > 0
        invariant
            i <= js.len(),
            n == js.len(),
            jobs matches Some(x) && x@ == js,
            rest@ == js.skip(i as int),
            experience@.len() == i,
            forall|k: int| 0 <= k < i ==> (#[trigger] period_dates(js[k].dateRange)) is Ok,
            forall|k: int| 0 <= k < i ==> #[trigger] experience_of_job(experience@[k], js[k]),
        decreases rest.len(),
    {
        let job = rest.remove(0);
        assert(job == js[i as int]);
        let date = clone_opt(&job.dateRange);
        let new_vec = get_date(as_deref(&date));
        let date_vec = match new_vec {
            Ok(value) => value,
            Err(_) => {
                proof {
                    assert(!(period_dates(js[i as int].dateRange) is Ok));
                }
                return Err(CustomError::ButtonNotFound(String::from_str("Date vec is error")));
            },
        };
        let exp = SerializedExperience {
            companyName: clone_opt(&job.companyName),
            companyId: extract_number(clone_opt(&job.companyUrl)),
            companyURL: job.companyUrl,
            companyLetter: clone_opt(&job.companyName),
            logo: job.logoUrl,
            position: job.jobTitle,
            employmentType: None,
            periodText: job.dateRange,
            startDate: date_vec[0],
            endDate: date_vec[1],
            duration: job.duration,
            location: job.location,
            description: job.description,
        };
        let ghost before = experience@;
        experience.push(exp);
        proof {
            assert(experience_of_job(experience@[i as int], js[i as int]));
            assert forall|k: int| 0 <= k < i implies #[trigger] experience_of_job(experience@[k], js[k]) by {
                assert(experience@[k] == before[k]);
            }
        }
        i = i + 1;
        assert(rest@ =~= js.skip(i as int));
    }
    Ok(experience)
}

/// The profile record of an exported profile: its first job gives the
/// company, its schools and jobs the education and experience, and the
/// fixed fields mark it as viewed through PhantomBuster.
pub open spec fn phantom_profile_spec(
    p: SerializedProfile,
    json: PhantomJsonProfile,
    job: Option<String>,
    sourcer: Option<String>,
    search_url: Option<String>,
) -> bool {
    &&& p.AI
    &&& p.linkedin == json.general.profileUrl
    &&& p.first == json.general.firstName
    &&& p.last == json.general.lastName
    &&& p.email is None
    &&& p.job == job
    &&& p.sourcer == sourcer
    &&& p.title == json.general.headline
    &&& opt_view(p.linkedin_unique) == match json.general.profileUrl {
        Some(u) => Some(last_piece_spec(u@)),
        None => None,
    }
    &&& p.linkedin_unique_number == json.general.userId
    &&& p.connectionLevel == Some(2i32)
    &&& match json.jobs {
        Some(js) => p.company == js@[0].companyName && opt_view(p.company_unique) == opt_number(
            js@[0].companyUrl,
        ),
        None => p.company is None && p.company_unique is None,
    }
    &&& p.about == json.general.description
    &&& p.profilePicture == json.general.imgUrl
    &&& p.education@.len() == match json.schools {
        Some(ss) => ss@.len(),
        None => 0,
    }
    &&& json.schools matches Some(ss) ==> forall|i: int|
        0 <= i < ss@.len() ==> #[trigger] education_of_school(p.education@[i], ss@[i])
    &&& p.experience@.len() == match json.jobs {
        Some(js) => js@.len(),
        None => 0,
    }
    &&& json.jobs matches Some(js) ==> forall|i: int|
        0 <= i < js@.len() ==> #[trigger] experience_of_job(p.experience@[i], js@[i])
    &&& opt_view(p.viewedIn) == Some("Phantom"@)
    &&& p.location == json.general.location
    &&& p.entityUrn == json.general.vmid
    &&& opt_view(p.extension_version) == Some("phantom"@)
    &&& p.timestamp == json.timestamp
    &&& p.search_url == search_url
}

/// All periods of the export's entries give dates.
pub open spec fn phantom_dates_ok(json: PhantomJsonProfile) -> bool {
    &&& json.schools matches Some(ss) ==> forall|i: int|
        0 <= i < ss@.len() ==> (#[trigger] period_dates(ss@[i].dateRange)) is Ok
    &&& json.jobs matches Some(js) ==> forall|i: int|
        0 <= i < js@.len() ==> (#[trigger] period_dates(js@[i].dateRange)) is Ok
}

/// The profile record of one exported profile, with the job, sourcer and
/// search of the export; never an error, since every period gives dates.
pub fn build_profile_from_phantom(
    json: PhantomJsonProfile,
    job: Option<String>,
    sourcer: Option<String>,
    search_url: Option<String>,
) -> (r: Result<SerializedProfile, CustomError>)
    requires
        json.jobs matches Some(js) ==> js@.len() > 0,
    ensures
        r is Ok,
        phantom_dates_ok(json) ==> (r matches Ok(p) && phantom_profile_spec(
            p,
            json,
            job,
            sourcer,
            search_url,
        )),
        !phantom_dates_ok(json) ==> (r matches Err(CustomError::ButtonNotFound(m)) && m@
            == date_vec_error()),
{
    let ghost j0 = json;
    let company = match &json.jobs {
        Some(job) => (extract_number(clone_opt(&job[0].companyUrl)), clone_opt(&job[0].companyName)),
        None => (None, None),
    };
    let education = to_education(json.schools);
    let education = match education {
        Ok(e) => e,
        Err(e) => {
            return Err(e);
        },
    };
    let jobs = to_experience(json.jobs);
    let jobs = match jobs {
        Ok(j) => j,
        Err(e) => {
            return Err(e);
        },
    };
    let result = SerializedProfile {
        AI: true,
        linkedin: clone_opt(&json.general.profileUrl),
        first: json.general.firstName,
        last: json.general.lastName,
        email: None,
        job,
        sourcer,
        title: json.general.headline,
        linkedin_unique: extract_nick(clone_opt(&json.general.profileUrl)),
        linkedin_unique_number: json.general.userId,
        connectionLevel: Some(2),
        company: company.1,
        company_unique: company.0,
        about: json.general.description,
        profilePicture: json.general.imgUrl,
        education,
        experience: jobs,
        viewedIn: Some(String::from_str("Phantom")),
        location: json.general.location,
        entityUrn: json.general.vmid,
        extension_version: Some(String::from_str("phantom")),
        timestamp: json.timestamp,
        search_url,
    };
    Ok(result)
}

/// The profile with its experience entries, its company and company id
/// taken from the first entry (none without entries); every other field
/// as it was.
pub open spec fn experience_record(profile: Profile, experience: Vec<Experience>) -> Profile {
    Profile {
        experience,
        company: if experience@.len() > 0 { experience@[0].companyName } else { None },
        company_unique: if experience@.len() > 0 { experience@[0].companyId } else { None },
        ..profile
    }
}

/// The profile with its experience entries, its company taken from the
/// first; every other field unchanged.
pub fn with_experience(profile: Profile, experience: Vec<Experience>) -> (r: Profile)
    ensures
        r == experience_record(profile, experience),
{
    let company = if experience.len() > 0 {
        clone_opt(&experience[0].companyName)
    } else {
        None
    };
    let company_unique = if experience.len() > 0 {
        clone_opt(&experience[0].companyId)
    } else {
        None
    };
    Profile { experience, company, company_unique, ..profile }
}

} // verus!
