use vstd::prelude::*;

verus! {

/// Seconds from 0000-01-01T00:00:00Z to the Unix epoch, negated.
pub const MIN_STORABLE_SECS: i64 = -62167219200;

/// Seconds from the Unix epoch to 9999-12-31T23:59:59Z.
pub const MAX_STORABLE_SECS: i64 = 253402300799;

/// A UTC instant: whole seconds since the Unix epoch and the nanoseconds
/// within that second.
#[derive(Clone, Copy, Debug, PartialEq, Eq, Structural)]
pub struct Timestamp {
    pub secs: i64,
    pub nanos: u32,
}

impl Timestamp {
    /// Instants that the text form of the store can hold: years 0 to 9999,
    /// no leap-second representation.
    pub open spec fn storable(self) -> bool {
        MIN_STORABLE_SECS <= self.secs <= MAX_STORABLE_SECS && self.nanos < 1_000_000_000
    }

    /// Nanoseconds since the Unix epoch.
    pub open spec fn total_nanos(self) -> int {
        self.secs * 1_000_000_000 + self.nanos
    }

    pub open spec fn new_spec(secs: i64, nanos: u32) -> Timestamp {
        Timestamp { secs, nanos }
    }

    #[verifier::when_used_as_spec(new_spec)]
    pub fn new(secs: i64, nanos: u32) -> (r: Timestamp)
        ensures
            r == Timestamp::new_spec(secs, nanos),
    {
        Timestamp { secs, nanos }
    }

    /// The current UTC time.
    pub fn now() -> (r: Timestamp)
        ensures
            r.secs >= 0,
            r.nanos < 1_000_000_000,
    {
        let (secs, nanos) = utc_now();
        Timestamp { secs, nanos }
    }

    /// Whether `self` is strictly earlier than `other`.
    pub fn is_before(&self, other: &Timestamp) -> (r: bool)
        ensures
            r == (self.secs < other.secs || (self.secs == other.secs && self.nanos < other.nanos)),
    {
        self.secs < other.secs || (self.secs == other.secs && self.nanos < other.nanos)
    }

    /// Reads an RFC 3339 timestamp, such as `2022-01-01T01:00:00Z`.
    pub fn parse(text: &str) -> (r: Option<Timestamp>)
        ensures
            r == (match rfc3339_parsed(text@) {
                Some((s, n)) => Some(Timestamp { secs: s, nanos: n }),
                None => None,
            }),
            text@.len() == 0 ==> r is None,
            forall|secs: i64, nanos: u32|
                #![trigger rfc3339_text(secs, nanos)]
                Timestamp::new_spec(secs, nanos).storable() && text@ == rfc3339_text(secs, nanos)
                    ==> r == Some(Timestamp::new_spec(secs, nanos)),
    {
        match parse_rfc3339(text) {
            Some((secs, nanos)) => Some(Timestamp { secs, nanos }),
            None => None,
        }
    }

    /// The RFC 3339 text of a storable instant, in UTC with a `Z` suffix.
    pub fn to_text(&self) -> (r: String)
        requires
            self.storable(),
        ensures
            r@ == rfc3339_text(self.secs, self.nanos),
    {
        format_rfc3339(self.secs, self.nanos)
    }
}

/// One recorded interval of work. It is active while `end` is absent.
#[derive(Clone, Debug)]
pub struct Track {
    pub id: String,
    pub name: String,
    pub start: Timestamp,
    pub end: Option<Timestamp>,
    pub project: String,
    pub workspace: String,
}

impl Track {
    pub open spec fn is_active(&self) -> bool {
        self.end is None
    }

    /// Same track in every field; the end may be the only difference.
    pub open spec fn same_but_end(&self, other: &Track) -> bool {
        &&& self.id@ == other.id@
        &&& self.name@ == other.name@
        &&& self.start == other.start
        &&& self.project@ == other.project@
        &&& self.workspace@ == other.workspace@
    }

    /// Equal in every field.
    pub open spec fn same_as(&self, other: &Track) -> bool {
        self.same_but_end(other) && self.end == other.end
    }

    /// Builds a track from given values, as when it is read back from a store.
    pub fn create(
        id: String,
        name: String,
        start: Timestamp,
        end: Option<Timestamp>,
        project: String,
        workspace: String,
    ) -> (r: Track)
        ensures
            r.id == id,
            r.name == name,
            r.start == start,
            r.end == end,
            r.project == project,
            r.workspace == workspace,
    {
        Track { id, name, start, end, project, workspace }
    }

    /// A new active track with a fresh random id, started now.
    pub fn start_new_track(name: String, project: String, workspace: String) -> (r: Track)
        ensures
            is_uuid_v4_text(r.id@),
            r.name == name,
            r.project == project,
            r.workspace == workspace,
            r.end is None,
            r.start.secs >= 0,
            r.start.nanos < 1_000_000_000,
    {
        let id = new_uuid_text();
        let start = Timestamp::now();
        Track { id, name, start, end: None, project, workspace }
    }

    /// Ends the track now.
    pub fn stop_track(&mut self)
        ensures
            final(self).same_but_end(old(self)),
            final(self).id == old(self).id,
            final(self).name == old(self).name,
            final(self).project == old(self).project,
            final(self).workspace == old(self).workspace,
            final(self).end matches Some(t) && t.secs >= 0 && t.nanos < 1_000_000_000,
            !final(self).is_active(),
    {
        self.end = Some(Timestamp::now());
    }

    pub fn is_tracking(&self) -> (r: bool)
        ensures
            r == self.is_active(),
            r <==> self.end is None,
    {
        match self.end {
            Some(_) => false,
            None => true,
        }
    }

    /// A copy equal in every field.
    pub fn duplicate(&self) -> (r: Track)
        ensures
            r == *self,
    {
        Track {
            id: self.id.clone(),
            name: self.name.clone(),
            start: self.start,
            end: self.end,
            project: self.project.clone(),
            workspace: self.workspace.clone(),
        }
    }
}

/// The text that chrono writes for an instant in RFC 3339 form, UTC, `Z`
/// suffix, with nine fraction digits: one width for every instant, so that
/// texts order as instants do.
pub uninterp spec fn rfc3339_text(secs: i64, nanos: u32) -> Seq<char>;

/// The instant, as seconds and nanoseconds since the epoch, that chrono
/// reads from an RFC 3339 text, if it accepts it.
pub uninterp spec fn rfc3339_parsed(text: Seq<char>) -> Option<(i64, u32)>;

/// Relies on chrono's `Utc::now`: seconds since the epoch (it panics before
/// the epoch) and a sub-second part from `Duration::subsec_nanos`.
#[verifier::external_body]
fn utc_now() -> (r: (i64, u32))
    ensures
        r.0 >= 0,
        r.1 < 1_000_000_000,
{
    let now = chrono::Utc::now();
    (now.timestamp(), now.timestamp_subsec_nanos())
}

/// Relies on chrono's `DateTime::to_rfc3339_opts` with `SecondsFormat::Nanos`
/// and `use_z`, on the instant built by `DateTime::from_timestamp`, which
/// accepts every storable instant.
#[verifier::external_body]
fn format_rfc3339(secs: i64, nanos: u32) -> (r: String)
    requires
        MIN_STORABLE_SECS <= secs <= MAX_STORABLE_SECS,
        nanos < 1_000_000_000,
    ensures
        r@ == rfc3339_text(secs, nanos),
{
    let at = chrono::DateTime::from_timestamp(secs, nanos).unwrap();
    at.to_rfc3339_opts(chrono::SecondsFormat::Nanos, true)
}

/// Relies on chrono's `DateTime::parse_from_rfc3339`, taken to UTC: the text
/// that `to_rfc3339_opts` wrote for a storable instant reads back as that instant.
#[verifier::external_body]
fn parse_rfc3339(text: &str) -> (r: Option<(i64, u32)>)
    ensures
        r == rfc3339_parsed(text@),
        text@.len() == 0 ==> r is None,
        forall|secs: i64, nanos: u32|
            #![trigger rfc3339_text(secs, nanos)]
            MIN_STORABLE_SECS <= secs <= MAX_STORABLE_SECS && nanos < 1_000_000_000
                && text@ == rfc3339_text(secs, nanos) ==> r == Some((secs, nanos)),
{
    match chrono::DateTime::parse_from_rfc3339(text) {
        Ok(at) => Some((at.timestamp(), at.timestamp_subsec_nanos())),
        Err(_) => None,
    }
}

pub open spec fn is_lower_hex(c: char) -> bool {
    ('0' <= c && c <= '9') || ('a' <= c && c <= 'f')
}

/// The hyphenated lower-case text of a random (version 4, RFC 4122 variant)
/// UUID, such as `a1a2a3a4-b1b2-4c1c-8d1d-d3d4d5d6d7d8`.
pub open spec fn is_uuid_v4_text(s: Seq<char>) -> bool {
    &&& s.len() == 36
    &&& forall|i: int|
        0 <= i < 36 ==> if i == 8 || i == 13 || i == 18 || i == 23 {
            s[i] == '-'
        } else {
            is_lower_hex(#[trigger] s[i])
        }
    &&& s[14] == '4'
    &&& (s[19] == '8' || s[19] == '9' || s[19] == 'a' || s[19] == 'b')
}

/// Relies on uuid's `Uuid::new_v4`, which sets the version and variant bits,
/// and its hyphenated form, written in lower-case hex (`Hyphenated::LENGTH`
/// is 36).
#[verifier::external_body]
fn new_uuid_text() -> (r: String)
    ensures
        is_uuid_v4_text(r@),
{
    uuid::Uuid::new_v4().hyphenated().to_string()
}

} // verus!
