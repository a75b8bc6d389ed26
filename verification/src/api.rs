use vstd::prelude::*;
use vstd::string::*;

use crate::config::clone_opt_string;
use crate::credentials::HarvestCredentials;
use crate::dates::Date;
use crate::dates::date_chars;
use crate::dates::dec_chars;
use crate::dates::format_date;
use crate::dates::u32_digits;
use crate::error::Error;

verus! {

/// The user a time entry belongs to, as the API reports it.
#[derive(Clone, Copy, Debug, PartialEq, Eq, Structural)]
pub struct User {
    pub id: u32,
}

/// The project a time entry was booked on.
#[derive(Debug)]
pub struct Project {
    pub id: u32,
    pub name: String,
}

impl Clone for Project {
    fn clone(&self) -> (r: Self)
        ensures
            r == *self,
    {
        Project { id: self.id, name: self.name.clone() }
    }
}

/// The task a time entry was booked on.
#[derive(Debug)]
pub struct Task {
    pub id: u32,
    pub name: String,
}

impl Clone for Task {
    fn clone(&self) -> (r: Self)
        ensures
            r == *self,
    {
        Task { id: self.id, name: self.name.clone() }
    }
}

/// One logged unit of work, as one element of the API's time-entries
/// response. Dates and timestamps that the report only echoes are kept
/// as the text the API sent; `created_date` is the calendar date, in the
/// local time zone, of the entry's creation timestamp, and is the key
/// the grouping uses.
#[derive(Debug)]
pub struct TimeEntry {
    pub id: u32,
    pub spent_date: String,
    pub hours: String,
    pub rounded_hours: String,
    pub created_at: String,
    pub created_date: Date,
    pub user: User,
    pub project: Project,
    pub task: Option<Task>,
    pub notes: String,
    pub timer_started_at: Option<String>,
    pub started_time: Option<String>,
    pub ended_time: Option<String>,
}

impl Clone for TimeEntry {
    fn clone(&self) -> (r: Self)
        ensures
            r == *self,
    {
        TimeEntry {
            id: self.id,
            spent_date: self.spent_date.clone(),
            hours: self.hours.clone(),
            rounded_hours: self.rounded_hours.clone(),
            created_at: self.created_at.clone(),
            created_date: self.created_date,
            user: self.user,
            project: self.project.clone(),
            task: match &self.task {
                Some(t) => Some(t.clone()),
                None => None,
            },
            notes: self.notes.clone(),
            timer_started_at: clone_opt_string(&self.timer_started_at),
            started_time: clone_opt_string(&self.started_time),
            ended_time: clone_opt_string(&self.ended_time),
        }
    }
}

/// One page of time entries, in the order the API returned them.
#[derive(Debug)]
pub struct TimeEntries {
    pub time_entries: Vec<TimeEntry>,
}

/// The entries of one calendar date, in their original order.
#[derive(Debug)]
pub struct DateGroup {
    pub date: Date,
    pub entries: Vec<TimeEntry>,
}

/// The entries of a page, bucketed by the calendar date of their
/// creation timestamp. Group order follows the first occurrence of each
/// date; order inside a group follows the page.
#[derive(Debug)]
pub struct GroupedEntries {
    pub groups: Vec<DateGroup>,
}

/// The entries of `s` whose creation date is `d`, in order.
pub open spec fn with_date(s: Seq<TimeEntry>, d: Date) -> Seq<TimeEntry>
    decreases s.len(),
{
    if s.len() == 0 {
        Seq::empty()
    } else {
        let rest = with_date(s.drop_last(), d);
        if s.last().created_date == d {
            rest.push(s.last())
        } else {
            rest
        }
    }
}

/// How the date filter grows when one entry is appended.
proof fn lemma_with_date_push(s: Seq<TimeEntry>, x: TimeEntry, d: Date)
    ensures
        with_date(s.push(x), d) == (if x.created_date == d {
            with_date(s, d).push(x)
        } else {
            with_date(s, d)
        }),
{
    assert(s.push(x).drop_last() =~= s);
    assert(s.push(x).last() == x);
}

/// Every element of a date's filtered sequence carries that date.
proof fn lemma_with_date_pred(s: Seq<TimeEntry>, d: Date)
    ensures
        forall|i: int|
            0 <= i < with_date(s, d).len() ==> (#[trigger] with_date(s, d)[i]).created_date == d,
    decreases s.len(),
{
    if s.len() > 0 {
        lemma_with_date_pred(s.drop_last(), d);
    }
}

/// An entry of `s` carrying date `d` appears in the filtered sequence.
proof fn lemma_with_date_contains(s: Seq<TimeEntry>, d: Date, k: int)
    requires
        0 <= k < s.len(),
        s[k].created_date == d,
    ensures
        with_date(s, d).contains(s[k]),
    decreases s.len(),
{
    if k == s.len() - 1 {
        assert(with_date(s, d).last() == s[k]);
    } else {
        lemma_with_date_contains(s.drop_last(), d, k);
        let rest = with_date(s.drop_last(), d);
        let j = choose|j: int| 0 <= j < rest.len() && rest[j] == s.drop_last()[k];
        assert(with_date(s, d)[j] == s[k]);
    }
}

impl GroupedEntries {
    /// Group dates are pairwise distinct, no group is empty, and every
    /// entry sits in the group of its own creation date.
    pub open spec fn wf(self) -> bool {
        &&& forall|i: int, j: int|
            0 <= i < j < self.groups@.len() ==> (#[trigger] self.groups@[i]).date != (
            #[trigger] self.groups@[j]).date
        &&& forall|i: int|
            0 <= i < self.groups@.len() ==> (#[trigger] self.groups@[i]).entries@.len() > 0
        &&& forall|i: int, k: int|
            0 <= i < self.groups@.len() && 0 <= k < (#[trigger] self.groups@[i]).entries@.len()
                ==> (#[trigger] self.groups@[i].entries@[k]).created_date == self.groups@[i].date
    }

    /// Some group holds this entry.
    pub open spec fn contains_entry(self, e: TimeEntry) -> bool {
        exists|i: int|
            0 <= i < self.groups@.len() && (#[trigger] self.groups@[i]).entries@.contains(e)
    }

    /// Some group carries this date.
    pub open spec fn has_group_for(self, d: Date) -> bool {
        exists|i: int| 0 <= i < self.groups@.len() && (#[trigger] self.groups@[i]).date == d
    }
}

/// There is an entry among the first `n` of `s` whose creation date is `d`.
spec fn date_occurs_before(s: Seq<TimeEntry>, n: int, d: Date) -> bool {
    exists|k: int| 0 <= k < n && (#[trigger] s[k]).created_date == d
}

/// An element of a date's filtered sequence comes from the original
/// sequence.
proof fn lemma_with_date_subset(s: Seq<TimeEntry>, d: Date, e: TimeEntry)
    requires
        with_date(s, d).contains(e),
    ensures
        s.contains(e),
    decreases s.len(),
{
    if s.len() == 0 {
    } else {
        let sub = s.drop_last();
        if with_date(sub, d).contains(e) {
            lemma_with_date_subset(sub, d, e);
            let i = choose|i: int| 0 <= i < sub.len() && sub[i] == e;
            assert(s[i] == e);
        } else {
            assert(e == s.last());
            assert(s[s.len() - 1] == e);
        }
    }
}

fn date_in(dates: &Vec<Date>, d: Date) -> (b: bool)
    ensures
        b == dates@.contains(d),
{
    let mut i: usize = 0;
    while i < dates.len()
        invariant
            i <= dates@.len(),
            forall|m: int| 0 <= m < i ==> dates@[m] != d,
        decreases dates@.len() - i,
    {
        if dates[i] == d {
            return true;
        }
        i = i + 1;
    }
    false
}

/// The distinct creation dates of a page, in order of first occurrence.
fn distinct_dates(entries: &Vec<TimeEntry>) -> (r: Vec<Date>)
    ensures
        forall|i: int, j: int| 0 <= i < j < r@.len() ==> r@[i] != r@[j],
        forall|k: int|
            0 <= k < entries@.len() ==> r@.contains((#[trigger] entries@[k]).created_date),
        forall|i: int|
            0 <= i < r@.len() ==> date_occurs_before(
                entries@,
                entries@.len() as int,
                #[trigger] r@[i],
            ),
        entries@.len() == 0 ==> r@.len() == 0,
{
    let mut r: Vec<Date> = Vec::new();
    let mut k: usize = 0;
    while k < entries.len()
        invariant
            k <= entries@.len(),
            r@.len() <= k,
            forall|i: int, j: int| 0 <= i < j < r@.len() ==> r@[i] != r@[j],
            forall|m: int| 0 <= m < k ==> r@.contains((#[trigger] entries@[m]).created_date),
            forall|i: int|
                0 <= i < r@.len() ==> date_occurs_before(entries@, k as int, #[trigger] r@[i]),
        decreases entries@.len() - k,
    {
        let ghost old_r = r@;
        let e = &entries[k];
        if !date_in(&r, e.created_date) {
            r.push(e.created_date);
        }
        proof {
            assert forall|m: int| 0 <= m < k + 1 implies r@.contains(
                (#[trigger] entries@[m]).created_date,
            ) by {
                if m < k {
                    let j = choose|j: int|
                        0 <= j < old_r.len() && old_r[j] == entries@[m].created_date;
                    assert(r@[j] == entries@[m].created_date);
                } else {
                    if old_r.contains(e.created_date) {
                        let j = choose|j: int| 0 <= j < old_r.len() && old_r[j] == e.created_date;
                        assert(r@[j] == e.created_date);
                    } else {
                        assert(r@[r@.len() - 1] == e.created_date);
                    }
                }
            }
        }
        k = k + 1;
    }
    r
}

/// The page's entries of one date, in page order.
fn entries_with_date(s: &Vec<TimeEntry>, d: Date) -> (r: Vec<TimeEntry>)
    ensures
        r@ == with_date(s@, d),
{
    let mut r: Vec<TimeEntry> = Vec::new();
    let mut i: usize = 0;
    while i < s.len()
        invariant
            i <= s@.len(),
            r@ == with_date(s@.subrange(0, i as int), d),
        decreases s@.len() - i,
    {
        let e = &s[i];
        proof {
            let prefix = s@.subrange(0, i as int);
            let x = s@[i as int];
            assert(s@.subrange(0, i as int + 1) =~= prefix.push(x));
            lemma_with_date_push(prefix, x, d);
        }
        if e.created_date == d {
            r.push(e.clone());
        }
        i = i + 1;
    }
    proof {
        assert(s@.subrange(0, s@.len() as int) =~= s@);
    }
    r
}

impl TimeEntries {
    /// Partitions the page by the calendar date of each entry's creation
    /// timestamp: every group holds, in page order, exactly the page's
    /// entries of its date; no entry is dropped, none appears in two
    /// groups, and an empty page yields no groups. Groups stand in order
    /// of each date's first occurrence.
    pub fn group_by_date(&self) -> (r: GroupedEntries)
        ensures
            r.wf(),
            forall|i: int|
                0 <= i < r.groups@.len() ==> (#[trigger] r.groups@[i]).entries@ == with_date(
                    self.time_entries@,
                    r.groups@[i].date,
                ),
            forall|k: int|
                0 <= k < self.time_entries@.len() ==> r.has_group_for(
                    (#[trigger] self.time_entries@[k]).created_date,
                ),
            forall|e: TimeEntry| #[trigger]
                r.contains_entry(e) <==> self.time_entries@.contains(e),
            self.time_entries@.len() == 0 ==> r.groups@.len() == 0,
    {
        let dates = distinct_dates(&self.time_entries);
        let mut groups: Vec<DateGroup> = Vec::new();
        let mut di: usize = 0;
        while di < dates.len()
            invariant
                di <= dates@.len(),
                groups@.len() == di as int,
                forall|i: int| 0 <= i < di ==> (#[trigger] groups@[i]).date == dates@[i],
                forall|i: int|
                    0 <= i < di ==> (#[trigger] groups@[i]).entries@ == with_date(
                        self.time_entries@,
                        dates@[i],
                    ),
            decreases dates@.len() - di,
        {
            let entries = entries_with_date(&self.time_entries, dates[di]);
            groups.push(DateGroup { date: dates[di], entries });
            di = di + 1;
        }
        let r = GroupedEntries { groups };
        proof {
            let s = self.time_entries@;
            assert forall|i: int|
                0 <= i < r.groups@.len() implies (#[trigger] r.groups@[i]).entries@.len() > 0 by {
                let k = choose|k: int| 0 <= k < s.len() && (#[trigger] s[k]).created_date
                    == dates@[i];
                lemma_with_date_contains(s, dates@[i], k);
            }
            assert forall|i: int, k: int|
                0 <= i < r.groups@.len() && 0 <= k < (#[trigger] r.groups@[i]).entries@.len()
                    implies (#[trigger] r.groups@[i].entries@[k]).created_date
                == r.groups@[i].date by {
                lemma_with_date_pred(s, r.groups@[i].date);
            }
            assert forall|k: int|
                0 <= k < s.len() implies r.has_group_for(
                (#[trigger] s[k]).created_date,
            ) by {
                let d = s[k].created_date;
                assert(dates@.contains(d));
                let i = choose|i: int| 0 <= i < dates@.len() && dates@[i] == d;
                assert(r.groups@[i].date == d);
            }
            assert forall|e: TimeEntry| #[trigger]
                r.contains_entry(e) <==> s.contains(e) by {
                if r.contains_entry(e) {
                    let i = choose|i: int|
                        0 <= i < r.groups@.len() && (#[trigger] r.groups@[i]).entries@.contains(e);
                    lemma_with_date_subset(s, r.groups@[i].date, e);
                }
                if s.contains(e) {
                    let k = choose|k: int| 0 <= k < s.len() && s[k] == e;
                    assert(dates@.contains(s[k].created_date));
                    let i = choose|i: int|
                        0 <= i < dates@.len() && dates@[i] == s[k].created_date;
                    lemma_with_date_contains(s, dates@[i], k);
                    assert(r.groups@[i].entries@.contains(e));
                }
            }
        }
        r
    }
}

/// Law: in a well-formed grouping no entry appears in two groups: each
/// group's entries carry the group's own date, and group dates are
/// pairwise distinct.
pub proof fn lemma_no_entry_in_two_groups(g: GroupedEntries, i: int, j: int, e: TimeEntry)
    requires
        g.wf(),
        0 <= i < g.groups@.len(),
        0 <= j < g.groups@.len(),
        i != j,
        g.groups@[i].entries@.contains(e),
    ensures
        !g.groups@[j].entries@.contains(e),
{
    let ki = choose|k: int| 0 <= k < g.groups@[i].entries@.len() && g.groups@[i].entries@[k] == e;
    assert(g.groups@[i].entries@[ki].created_date == g.groups@[i].date);
    if g.groups@[j].entries@.contains(e) {
        let kj = choose|k: int|
            0 <= k < g.groups@[j].entries@.len() && g.groups@[j].entries@[k] == e;
        assert(g.groups@[j].entries@[kj].created_date == g.groups@[j].date);
    }
}

/// The query-string parameters of the time-entries call: the user whose
/// entries are listed and the optional inclusive date bounds.
#[derive(Debug)]
pub struct TimeEntriesQuery {
    pub user_id: u32,
    pub from: Option<Date>,
    pub to: Option<Date>,
}

impl TimeEntriesQuery {
    /// The query as key/value text pairs, in the order they are sent:
    /// `user_id`, then `from` and `to` where present, dates rendered as
    /// `YYYY-MM-DD`.
    pub fn query_params(&self) -> (p: Vec<(String, String)>)
        requires
            self.from matches Some(f) ==> f.wf(),
            self.to matches Some(t) ==> t.wf(),
        ensures
            p@.len() == 1 + (if self.from is Some {
                1int
            } else {
                0int
            }) + (if self.to is Some {
                1int
            } else {
                0int
            }),
            p@[0].0@ == "user_id"@ && p@[0].1@ == dec_chars(self.user_id as nat),
            self.from matches Some(f) ==> p@[1].0@ == "from"@ && p@[1].1@ == date_chars(f),
            self.to matches Some(t) ==> ({
                let i = if self.from is Some {
                    2int
                } else {
                    1int
                };
                p@[i].0@ == "to"@ && p@[i].1@ == date_chars(t)
            }),
    {
        let mut p: Vec<(String, String)> = Vec::new();
        p.push((String::from_str("user_id"), u32_digits(self.user_id)));
        match &self.from {
            Some(f) => {
                p.push((String::from_str("from"), format_date(f)));
            },
            None => {},
        }
        match &self.to {
            Some(t) => {
                p.push((String::from_str("to"), format_date(t)));
            },
            None => {},
        }
        p
    }
}

/// The fixed root of the service's API.
pub open spec fn spec_base_url() -> Seq<char> {
    "https://api.harvestapp.com/api/v2"@
}

/// Prefixes a path with the API's base URL.
pub fn route(path: &str) -> (r: String)
    ensures
        r@ == spec_base_url() + path@,
{
    String::from_str("https://api.harvestapp.com/api/v2").concat(path)
}

/// The value of the authorization header for a given token.
pub fn bearer_token(token: &str) -> (r: String)
    ensures
        r@ == "Bearer "@ + token@,
{
    String::from_str("Bearer ").concat(token)
}

/// The three headers every API call carries: the client's user-agent,
/// the bearer authorization, and the account id.
pub fn auth_headers(credentials: &HarvestCredentials) -> (h: Vec<(String, String)>)
    ensures
        h@.len() == 3,
        h@[0].0@ == "User-Agent"@ && h@[0].1@ == "harvest-daily"@,
        h@[1].0@ == "Authorization"@ && h@[1].1@ == "Bearer "@ + credentials.token@,
        h@[2].0@ == "Harvest-Account-ID"@ && h@[2].1@ == dec_chars(credentials.account_id as nat),
{
    let mut h: Vec<(String, String)> = Vec::new();
    h.push((String::from_str("User-Agent"), String::from_str("harvest-daily")));
    h.push((String::from_str("Authorization"), bearer_token(token_str(credentials))));
    h.push((String::from_str("Harvest-Account-ID"), u32_digits(credentials.account_id)));
    h
}

fn token_str(credentials: &HarvestCredentials) -> (t: &str)
    ensures
        t@ == credentials.token@,
{
    credentials.token.as_str()
}

/// Sorts an HTTP status into success or failure: 2xx statuses succeed,
/// every other status is a malformed-response failure. Nothing is
/// retried.
pub fn check_status(status: u16) -> (r: Result<(), Error>)
    ensures
        r is Ok <==> 200 <= status < 300,
        r matches Err(e) ==> e == Error::ApiResponseMalformed,
{
    if 200 <= status && status < 300 {
        Ok(())
    } else {
        Err(Error::ApiResponseMalformed)
    }
}

} // verus!
