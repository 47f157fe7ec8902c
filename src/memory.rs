//! The records that summarising leaves behind: one per repository, issue,
//! commit or discussion, with the date it belongs to.

use vstd::prelude::*;

verus! {

/// What a record is about.
#[derive(Clone, Copy, Debug, PartialEq, Eq, Structural)]
pub enum MemoryType {
    Meta,
    Issue,
    Commit,
    Discussion,
}

/// A calendar date of the proleptic Gregorian calendar.
#[derive(Clone, Copy, Debug, PartialEq, Eq, Structural)]
pub struct CalendarDate {
    pub year: i32,
    pub month: u32,
    pub day: u32,
}

/// Whether `year` is a leap year.
pub open spec fn is_leap(year: int) -> bool {
    (year % 4 == 0 && year % 100 != 0) || year % 400 == 0
}

/// The number of days of `month` in `year`.
pub open spec fn days_in_month(year: int, month: nat) -> nat {
    if month == 2 {
        if is_leap(year) {
            29
        } else {
            28
        }
    } else if month == 4 || month == 6 || month == 9 || month == 11 {
        30
    } else {
        31
    }
}

impl CalendarDate {
    /// Whether the date exists.
    pub open spec fn valid(&self) -> bool {
        1 <= self.month <= 12 && 1 <= self.day <= days_in_month(
            self.year as int,
            self.month as nat,
        )
    }

    /// The date `year`-`month`-`day`, when it exists.
    pub fn new(year: i32, month: u32, day: u32) -> (r: Option<CalendarDate>)
        ensures
            r is Some <==> (CalendarDate { year, month, day }).valid(),
            r is Some ==> r->0 == (CalendarDate { year, month, day }),
    {
        if month < 1 || month > 12 || day < 1 {
            return None;
        }
        let leap = (year % 4 == 0 && year % 100 != 0) || year % 400 == 0;
        let days: u32 = if month == 2 {
            if leap {
                29
            } else {
                28
            }
        } else if month == 4 || month == 6 || month == 9 || month == 11 {
            30
        } else {
            31
        };
        if day > days {
            None
        } else {
            Some(CalendarDate { year, month, day })
        }
    }
}

/// One record.
pub struct GitMemory {
    pub memory_type: MemoryType,
    pub name: String,
    pub tag_line: String,
    pub source_url: String,
    pub payload: String,
    pub date: CalendarDate,
}

/// The address of the community profile of `owner`/`repo`.
pub open spec fn community_profile_url_of(owner: Seq<char>, repo: Seq<char>) -> Seq<char> {
    "https://api.github.com/repos/"@ + owner + "/"@ + repo + "/community/profile"@
}

/// The address of the community profile of `owner`/`repo`.
pub fn community_profile_url(owner: &str, repo: &str) -> (r: String)
    ensures
        r@ == community_profile_url_of(owner@, repo@),
{
    let mut out = String::from_str("https://api.github.com/repos/");
    out.append(owner);
    out.append("/");
    out.append(repo);
    out.append("/community/profile");
    out
}

/// The record of repository `owner`/`repo` from its description and the
/// summary of its README. When one of the two is empty the other stands
/// for it; when both are, there is nothing to record.
pub fn repo_memory(
    owner: &str,
    repo: &str,
    profile_url: String,
    description: String,
    readme_summary: String,
    date: CalendarDate,
) -> (r: Option<GitMemory>)
    ensures
        r is None <==> description@.len() == 0 && readme_summary@.len() == 0,
        r is Some ==> {
            let m = r->0;
            &&& m.memory_type == MemoryType::Meta
            &&& m.name@ == owner@ + "/"@ + repo@
            &&& m.tag_line@ == if description@.len() == 0 {
                readme_summary@
            } else {
                description@
            }
            &&& m.payload@ == if readme_summary@.len() == 0 {
                description@
            } else {
                readme_summary@
            }
            &&& m.source_url == profile_url
            &&& m.date == date
        },
{
    let d_empty = description.unicode_len() == 0;
    let s_empty = readme_summary.unicode_len() == 0;
    if d_empty && s_empty {
        return None;
    }
    let mut name = String::from_str(owner);
    name.append("/");
    name.append(repo);
    let (tag_line, payload) = if d_empty {
        (readme_summary.clone(), readme_summary)
    } else if s_empty {
        (description.clone(), description)
    } else {
        (description, readme_summary)
    };
    Some(
        GitMemory {
            memory_type: MemoryType::Meta,
            name,
            tag_line,
            source_url: profile_url,
            payload,
            date,
        },
    )
}

/// The record of an issue: named after the person the report is about,
/// or else after the issue's author.
pub fn issue_memory(
    author: &str,
    target_person: Option<String>,
    title: String,
    html_url: String,
    summary: String,
    date: CalendarDate,
) -> (r: GitMemory)
    ensures
        r.memory_type == MemoryType::Issue,
        r.name@ == match target_person {
            Some(t) => t@,
            None => author@,
        },
        r.tag_line == title,
        r.source_url == html_url,
        r.payload == summary,
        r.date == date,
{
    let name = match target_person {
        Some(t) => t,
        None => String::from_str(author),
    };
    GitMemory {
        memory_type: MemoryType::Issue,
        name,
        tag_line: title,
        source_url: html_url,
        payload: summary,
        date,
    }
}

} // verus!
