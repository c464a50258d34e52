//! Boulders: the to-do items that the platform persists. This module holds
//! their types, the text forms of status and priority, and the encoding of a
//! boulder into the row stored by the database and back.
use std::collections::hash_map::{DefaultHasher, RandomState};
use std::hash::{BuildHasher, Hash, Hasher};
use std::time::{Duration, SystemTime, SystemTimeError, UNIX_EPOCH};
use vstd::prelude::*;

use crate::numfmt::{decimal, hex16, spec_decimal, spec_hex};
use crate::text::{
    chars_eq, chars_of, join_chars, lemma_last_index_bounds, last_index_of, spec_join, spec_split,
    split_chars, string_from_chars, string_views, views,
};

verus! {

/// Progress of a boulder.
#[derive(Debug, Clone, Copy, PartialEq, Eq, Structural)]
pub enum BoulderStatus {
    Pending,
    InProgress,
    Completed,
    Cancelled,
}

/// Urgency of a boulder.
#[derive(Debug, Clone, Copy, PartialEq, Eq, Structural)]
pub enum BoulderPriority {
    Low,
    Medium,
    High,
}

/// A to-do item.
#[derive(Debug, Clone)]
pub struct Boulder {
    pub id: String,
    pub content: String,
    pub status: BoulderStatus,
    pub priority: BoulderPriority,
    pub created_at: String,
    pub updated_at: String,
    pub tags: Vec<String>,
}

/// A boulder as the database stores it: every field as text, the tags
/// joined by commas.
#[derive(Debug, Clone)]
pub struct BoulderRow {
    pub id: String,
    pub content: String,
    pub status: String,
    pub priority: String,
    pub created_at: String,
    pub updated_at: String,
    pub tags: String,
}

/// A boulder's fields as text.
pub struct BoulderView {
    pub id: Seq<char>,
    pub content: Seq<char>,
    pub status: BoulderStatus,
    pub priority: BoulderPriority,
    pub created_at: Seq<char>,
    pub updated_at: Seq<char>,
    pub tags: Seq<Seq<char>>,
}

impl View for Boulder {
    type V = BoulderView;

    open spec fn view(&self) -> BoulderView {
        BoulderView {
            id: self.id@,
            content: self.content@,
            status: self.status,
            priority: self.priority,
            created_at: self.created_at@,
            updated_at: self.updated_at@,
            tags: string_views(self.tags@),
        }
    }
}

// ---------------------------------------------------------------------------
// Text forms of status and priority
// ---------------------------------------------------------------------------

/// The name under which a status is displayed and stored.
pub open spec fn status_name(s: BoulderStatus) -> Seq<char> {
    match s {
        BoulderStatus::Pending => "pending"@,
        BoulderStatus::InProgress => "in_progress"@,
        BoulderStatus::Completed => "completed"@,
        BoulderStatus::Cancelled => "cancelled"@,
    }
}

/// The status that a name stands for, if any.
pub open spec fn status_named(s: Seq<char>) -> Option<BoulderStatus> {
    if s == "pending"@ {
        Some(BoulderStatus::Pending)
    } else if s == "in_progress"@ {
        Some(BoulderStatus::InProgress)
    } else if s == "completed"@ {
        Some(BoulderStatus::Completed)
    } else if s == "cancelled"@ {
        Some(BoulderStatus::Cancelled)
    } else {
        None
    }
}

/// The name under which a priority is displayed and stored.
pub open spec fn priority_name(p: BoulderPriority) -> Seq<char> {
    match p {
        BoulderPriority::Low => "low"@,
        BoulderPriority::Medium => "medium"@,
        BoulderPriority::High => "high"@,
    }
}

/// The priority that a name stands for, if any.
pub open spec fn priority_named(s: Seq<char>) -> Option<BoulderPriority> {
    if s == "low"@ {
        Some(BoulderPriority::Low)
    } else if s == "medium"@ {
        Some(BoulderPriority::Medium)
    } else if s == "high"@ {
        Some(BoulderPriority::High)
    } else {
        None
    }
}

fn same_text(a: &str, b: &str) -> (r: bool)
    ensures
        r == (a@ == b@),
{
    chars_eq(&chars_of(a), &chars_of(b))
}

impl BoulderStatus {
    /// The status's name: `pending`, `in_progress`, `completed` or
    /// `cancelled`.
    pub fn as_str(&self) -> (r: &'static str)
        ensures
            r@ == status_name(*self),
    {
        match self {
            BoulderStatus::Pending => "pending",
            BoulderStatus::InProgress => "in_progress",
            BoulderStatus::Completed => "completed",
            BoulderStatus::Cancelled => "cancelled",
        }
    }

    /// The status named `s`; an unknown name is an error that quotes it.
    pub fn parse(s: &str) -> (r: Result<Self, String>)
        ensures
            match status_named(s@) {
                Some(st) => r == Ok::<BoulderStatus, String>(st),
                None => r matches Err(e) && e@ == "Unknown status: "@ + s@,
            },
    {
        if same_text(s, "pending") {
            Ok(BoulderStatus::Pending)
        } else if same_text(s, "in_progress") {
            Ok(BoulderStatus::InProgress)
        } else if same_text(s, "completed") {
            Ok(BoulderStatus::Completed)
        } else if same_text(s, "cancelled") {
            Ok(BoulderStatus::Cancelled)
        } else {
            let mut e = String::from_str("Unknown status: ");
            e.append(s);
            Err(e)
        }
    }
}

impl std::str::FromStr for BoulderStatus {
    type Err = String;

    /// The status named `s`, as `parse` reads it.
    fn from_str(s: &str) -> (r: Result<Self, Self::Err>)
        ensures
            match status_named(s@) {
                Some(st) => r == Ok::<BoulderStatus, String>(st),
                None => r matches Err(e) && e@ == "Unknown status: "@ + s@,
            },
    {
        BoulderStatus::parse(s)
    }
}

impl BoulderPriority {
    /// The priority's name: `low`, `medium` or `high`.
    pub fn as_str(&self) -> (r: &'static str)
        ensures
            r@ == priority_name(*self),
    {
        match self {
            BoulderPriority::Low => "low",
            BoulderPriority::Medium => "medium",
            BoulderPriority::High => "high",
        }
    }

    /// The priority named `s`; an unknown name is an error that quotes it.
    pub fn parse(s: &str) -> (r: Result<Self, String>)
        ensures
            match priority_named(s@) {
                Some(p) => r == Ok::<BoulderPriority, String>(p),
                None => r matches Err(e) && e@ == "Unknown priority: "@ + s@,
            },
    {
        if same_text(s, "low") {
            Ok(BoulderPriority::Low)
        } else if same_text(s, "medium") {
            Ok(BoulderPriority::Medium)
        } else if same_text(s, "high") {
            Ok(BoulderPriority::High)
        } else {
            let mut e = String::from_str("Unknown priority: ");
            e.append(s);
            Err(e)
        }
    }
}

impl std::str::FromStr for BoulderPriority {
    type Err = String;

    /// The priority named `s`, as `parse` reads it.
    fn from_str(s: &str) -> (r: Result<Self, Self::Err>)
        ensures
            match priority_named(s@) {
                Some(p) => r == Ok::<BoulderPriority, String>(p),
                None => r matches Err(e) && e@ == "Unknown priority: "@ + s@,
            },
    {
        BoulderPriority::parse(s)
    }
}

/// A stored status; an unreadable one counts as pending.
fn parse_status(s: &str) -> (r: BoulderStatus)
    ensures
        r == match status_named(s@) {
            Some(st) => st,
            None => BoulderStatus::Pending,
        },
{
    match BoulderStatus::parse(s) {
        Ok(st) => st,
        Err(_) => BoulderStatus::Pending,
    }
}

/// A stored priority; an unreadable one counts as medium.
fn parse_priority(s: &str) -> (r: BoulderPriority)
    ensures
        r == match priority_named(s@) {
            Some(p) => p,
            None => BoulderPriority::Medium,
        },
{
    match BoulderPriority::parse(s) {
        Ok(p) => p,
        Err(_) => BoulderPriority::Medium,
    }
}

// ---------------------------------------------------------------------------
// Rows
// ---------------------------------------------------------------------------

/// The stored form of a tag list: the tags joined by commas.
pub open spec fn encode_tags(tags: Seq<Seq<char>>) -> Seq<char> {
    spec_join(tags, ","@)
}

/// The tags read back from their stored form: none from an empty text, else
/// the pieces between commas.
pub open spec fn decode_tags(s: Seq<char>) -> Seq<Seq<char>> {
    if s.len() == 0 {
        Seq::empty()
    } else {
        spec_split(s, ',')
    }
}

/// `row` is how `b` is stored: the texts as they are, status and priority
/// by name, the tags joined by commas.
pub open spec fn stored_as(b: BoulderView, row: BoulderRow) -> bool {
    &&& row.id@ == b.id
    &&& row.content@ == b.content
    &&& row.status@ == status_name(b.status)
    &&& row.priority@ == priority_name(b.priority)
    &&& row.created_at@ == b.created_at
    &&& row.updated_at@ == b.updated_at
    &&& row.tags@ == encode_tags(b.tags)
}

/// The boulder that a stored row describes.
pub open spec fn row_boulder(row: BoulderRow) -> BoulderView {
    BoulderView {
        id: row.id@,
        content: row.content@,
        status: match status_named(row.status@) {
            Some(s) => s,
            None => BoulderStatus::Pending,
        },
        priority: match priority_named(row.priority@) {
            Some(p) => p,
            None => BoulderPriority::Medium,
        },
        created_at: row.created_at@,
        updated_at: row.updated_at@,
        tags: decode_tags(row.tags@),
    }
}

fn strings_of(parts: &Vec<Vec<char>>) -> (r: Vec<String>)
    ensures
        string_views(r@) == views(parts@),
{
    let r = crate::width::strings_from(parts);
    r
}

impl Boulder {
    /// The row that stores this boulder.
    pub fn to_row(&self) -> (r: BoulderRow)
        ensures
            stored_as(self@, r),
    {
        let mut parts: Vec<Vec<char>> = Vec::new();
        let mut i: usize = 0;
        while i < self.tags.len()
            invariant
                i <= self.tags@.len(),
                views(parts@) == string_views(self.tags@).take(i as int),
            decreases self.tags@.len() - i,
        {
            let p = chars_of(self.tags[i].as_str());
            proof {
                crate::text::lemma_views_push(parts@, p);
            }
            parts.push(p);
            assert(string_views(self.tags@).take(i + 1) =~= string_views(self.tags@).take(
                i as int,
            ).push(self.tags@[i as int]@));
            i = i + 1;
        }
        assert(string_views(self.tags@).take(self.tags@.len() as int) =~= string_views(self.tags@));
        let tags = join_chars(&parts, &chars_of(","));
        BoulderRow {
            id: self.id.clone(),
            content: self.content.clone(),
            status: String::from_str(self.status.as_str()),
            priority: String::from_str(self.priority.as_str()),
            created_at: self.created_at.clone(),
            updated_at: self.updated_at.clone(),
            tags: string_from_chars(&tags),
        }
    }

    /// The boulder a stored row describes; an unknown status reads as
    /// pending and an unknown priority as medium.
    pub fn from_row(row: &BoulderRow) -> (r: Boulder)
        ensures
            r@ == row_boulder(*row),
    {
        let tag_chars = chars_of(row.tags.as_str());
        let tags = if tag_chars.len() == 0 {
            Vec::new()
        } else {
            strings_of(&split_chars(&tag_chars, ','))
        };
        let r = Boulder {
            id: row.id.clone(),
            content: row.content.clone(),
            status: parse_status(row.status.as_str()),
            priority: parse_priority(row.priority.as_str()),
            created_at: row.created_at.clone(),
            updated_at: row.updated_at.clone(),
            tags,
        };
        assert(r@.tags =~= decode_tags(row.tags@));
        r
    }

    /// A new pending boulder, created and updated at `now`.
    pub fn new_pending(
        id: String,
        now: String,
        content: String,
        priority: BoulderPriority,
        tags: Vec<String>,
    ) -> (r: Boulder)
        ensures
            r@ == (BoulderView {
                id: id@,
                content: content@,
                status: BoulderStatus::Pending,
                priority,
                created_at: now@,
                updated_at: now@,
                tags: string_views(tags@),
            }),
    {
        Boulder {
            id,
            content,
            status: BoulderStatus::Pending,
            priority,
            created_at: now.clone(),
            updated_at: now,
            tags,
        }
    }

    /// Sets the status, stamping the update time.
    pub fn set_status(&mut self, status: BoulderStatus, now: String)
        ensures
            final(self)@ == (BoulderView { status, updated_at: now@, ..old(self)@ }),
    {
        self.status = status;
        self.updated_at = now;
    }
}

// ---------------------------------------------------------------------------
// Time stamps and identifiers
// ---------------------------------------------------------------------------

/// `std::time::SystemTime`, carried opaquely.
#[verifier::external_type_specification]
#[verifier::external_body]
pub struct ExSystemTime(SystemTime);

/// `std::time::SystemTimeError`, carried opaquely.
#[verifier::external_type_specification]
#[verifier::external_body]
pub struct ExSystemTimeError(SystemTimeError);

/// `SystemTime::now`: the current time.
#[verifier::external_body]
fn system_now() -> (t: SystemTime) {
    SystemTime::now()
}

/// `SystemTime::duration_since(UNIX_EPOCH)`: time since the epoch, or an
/// error for a time before it.
#[verifier::external_body]
fn since_epoch(t: &SystemTime) -> (r: Result<Duration, SystemTimeError>) {
    t.duration_since(UNIX_EPOCH)
}

/// `Duration::as_secs`: whole seconds of a duration.
#[verifier::external_body]
fn whole_seconds(d: &Duration) -> (s: u64) {
    d.as_secs()
}

/// `RandomState::new`: hashing keys seeded at random.
#[verifier::external_body]
fn random_state() -> (r: RandomState) {
    RandomState::new()
}

/// `BuildHasher::build_hasher` of a `RandomState`.
#[verifier::external_body]
fn build_hasher(r: &RandomState) -> (h: DefaultHasher) {
    r.build_hasher()
}

/// `Hash::hash` of a time into a hasher.
#[verifier::external_body]
fn hash_time(t: &SystemTime, h: &mut DefaultHasher) {
    t.hash(h)
}

/// The current time as decimal seconds since the Unix epoch; a clock set
/// before the epoch reads as zero seconds.
fn chrono_lite_now() -> (r: String)
    ensures
        exists|secs: u64| r@ == spec_decimal(secs as nat),
{
    let now = system_now();
    let secs = match since_epoch(&now) {
        Ok(d) => whole_seconds(&d),
        Err(_) => 0,
    };
    decimal(secs)
}

/// A random identifier: the current time hashed with a randomly seeded
/// hasher, as sixteen lowercase hexadecimal digits.
fn uuid_v4() -> (r: String)
    ensures
        exists|v: u64| r@ == spec_hex(v as nat, 16),
{
    let rs = random_state();
    let mut hasher = build_hasher(&rs);
    let now = system_now();
    hash_time(&now, &mut hasher);
    hex16(hasher.finish())
}

/// A new pending boulder with a fresh identifier, stamped with the current
/// time.
pub fn create_boulder(content: String, priority: BoulderPriority, tags: Vec<String>) -> (r: Boulder)
    ensures
        r@.content == content@,
        r@.status == BoulderStatus::Pending,
        r@.priority == priority,
        r@.tags == string_views(tags@),
        r@.created_at == r@.updated_at,
        exists|secs: u64| r@.created_at == spec_decimal(secs as nat),
        exists|v: u64| r@.id == spec_hex(v as nat, 16),
{
    let now = chrono_lite_now();
    let id = uuid_v4();
    Boulder::new_pending(id, now, content, priority, tags)
}

/// A status change stamped with the current time.
pub fn restamp_status(boulder: &mut Boulder, status: BoulderStatus)
    ensures
        final(boulder)@.status == status,
        final(boulder)@.id == old(boulder)@.id,
        final(boulder)@.content == old(boulder)@.content,
        final(boulder)@.priority == old(boulder)@.priority,
        final(boulder)@.created_at == old(boulder)@.created_at,
        final(boulder)@.tags == old(boulder)@.tags,
        exists|secs: u64| final(boulder)@.updated_at == spec_decimal(secs as nat),
{
    let now = chrono_lite_now();
    boulder.set_status(status, now);
}

// ---------------------------------------------------------------------------
// Laws
// ---------------------------------------------------------------------------

/// A status reads back as itself from its name, and a name reads as a status
/// only if it is that status's name.
pub proof fn law_status_name_roundtrip(s: BoulderStatus, text: Seq<char>)
    ensures
        status_named(status_name(s)) == Some(s),
        status_named(text) == Some(s) ==> status_name(s) == text,
{
    reveal_strlit("pending");
    reveal_strlit("in_progress");
    reveal_strlit("completed");
    reveal_strlit("cancelled");
    assert("pending"@.len() == 7);
    assert("in_progress"@.len() == 11);
    assert("completed"@.len() == 9);
    assert("cancelled"@.len() == 9);
    assert("completed"@[1] != "cancelled"@[1]);
}

/// A priority reads back as itself from its name, and a name reads as a
/// priority only if it is that priority's name.
pub proof fn law_priority_name_roundtrip(p: BoulderPriority, text: Seq<char>)
    ensures
        priority_named(priority_name(p)) == Some(p),
        priority_named(text) == Some(p) ==> priority_name(p) == text,
{
    reveal_strlit("low");
    reveal_strlit("medium");
    reveal_strlit("high");
    assert("low"@.len() == 3);
    assert("medium"@.len() == 6);
    assert("high"@.len() == 4);
}

proof fn lemma_no_char_last_index(s: Seq<char>, c: char)
    requires
        !s.contains(c),
    ensures
        last_index_of(s, c) == -1,
    decreases s.len(),
{
    if s.len() > 0 {
        assert(s.last() == s[s.len() - 1]);
        assert(!s.drop_last().contains(c)) by {
            if s.drop_last().contains(c) {
                let k = choose|k: int| 0 <= k < s.drop_last().len() && s.drop_last()[k] == c;
                assert(s[k] == c);
            }
        }
        lemma_no_char_last_index(s.drop_last(), c);
    }
}

proof fn lemma_last_index_after(a: Seq<char>, b: Seq<char>, c: char)
    requires
        !b.contains(c),
    ensures
        last_index_of(a.push(c) + b, c) == a.len(),
    decreases b.len(),
{
    let s = a.push(c) + b;
    if b.len() == 0 {
        assert(s =~= a.push(c));
    } else {
        assert(s.last() == b.last());
        assert(b.last() != c) by {
            assert(b.last() == b[b.len() - 1]);
        }
        assert(s.drop_last() =~= a.push(c) + b.drop_last());
        assert(!b.drop_last().contains(c)) by {
            if b.drop_last().contains(c) {
                let k = choose|k: int| 0 <= k < b.drop_last().len() && b.drop_last()[k] == c;
                assert(b[k] == c);
            }
        }
        lemma_last_index_after(a, b.drop_last(), c);
    }
}

proof fn lemma_split_join(t: Seq<Seq<char>>)
    requires
        t.len() > 0,
        forall|i: int| 0 <= i < t.len() ==> !(#[trigger] t[i]).contains(','),
    ensures
        spec_split(spec_join(t, ","@), ',') == t,
    decreases t.len(),
{
    reveal_strlit(",");
    if t.len() == 1 {
        lemma_no_char_last_index(t[0], ',');
        assert(spec_split(t[0], ',') == seq![t[0]]);
        assert(seq![t[0]] =~= t);
    } else {
        let d = t.drop_last();
        let j = spec_join(d, ","@);
        assert(","@ =~= seq![',']);
        assert(spec_join(t, ","@) == j + ","@ + t.last());
        assert(j + ","@ + t.last() =~= j.push(',') + t.last());
        assert(!t.last().contains(',')) by {
            assert(t.last() == t[t.len() - 1]);
        }
        lemma_last_index_after(j, t.last(), ',');
        let s = j.push(',') + t.last();
        assert(s.take(j.len() as int) =~= j);
        assert(s.skip(j.len() as int + 1) =~= t.last());
        assert forall|i: int| 0 <= i < d.len() implies !(#[trigger] d[i]).contains(',') by {
            assert(d[i] == t[i]);
        }
        lemma_split_join(d);
        assert(d.push(t.last()) =~= t);
    }
}

/// Tags survive being stored and read back, provided no tag holds a comma
/// and the list is not a single empty tag (which reads back as no tags).
pub proof fn law_tags_roundtrip(t: Seq<Seq<char>>)
    requires
        forall|i: int| 0 <= i < t.len() ==> !(#[trigger] t[i]).contains(','),
        t != seq![Seq::<char>::empty()],
    ensures
        decode_tags(encode_tags(t)) == t,
{
    reveal_strlit(",");
    if t.len() == 0 {
        assert(encode_tags(t) =~= Seq::<char>::empty());
        assert(decode_tags(encode_tags(t)) =~= t);
    } else {
        lemma_split_join(t);
        if t.len() == 1 {
            assert(encode_tags(t) == t[0]);
            if t[0].len() == 0 {
                assert(t[0] =~= Seq::<char>::empty());
                assert(t =~= seq![Seq::<char>::empty()]);
            }
        } else {
            let d = t.drop_last();
            assert(encode_tags(t) == spec_join(d, ","@) + ","@ + t.last());
            assert((spec_join(d, ","@) + ","@ + t.last()).len() > 0);
        }
    }
}

} // verus!
