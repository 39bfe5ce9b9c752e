use vstd::prelude::*;
use vstd::string::StringExecFns;

verus! {

/// A query as ordered (key, value) pairs.
pub type Query = Vec<(String, String)>;

/// The views of a query's pairs.
pub open spec fn query_view(q: Seq<(String, String)>) -> Seq<(Seq<char>, Seq<char>)> {
    q.map_values(|p: (String, String)| (p.0@, p.1@))
}

/// The character of a decimal digit.
pub open spec fn digit_char(d: nat) -> char {
    if d == 0 {
        '0'
    } else if d == 1 {
        '1'
    } else if d == 2 {
        '2'
    } else if d == 3 {
        '3'
    } else if d == 4 {
        '4'
    } else if d == 5 {
        '5'
    } else if d == 6 {
        '6'
    } else if d == 7 {
        '7'
    } else if d == 8 {
        '8'
    } else {
        '9'
    }
}

/// The decimal writing of `n`, without leading zeros.
pub open spec fn decimal(n: nat) -> Seq<char>
    decreases n,
{
    if n < 10 {
        seq![digit_char(n)]
    } else {
        decimal(n / 10).push(digit_char(n % 10))
    }
}

/// The writing of a flag.
pub open spec fn bool_text(b: bool) -> Seq<char> {
    if b {
        "true"@
    } else {
        "false"@
    }
}

/// The parts joined, with `sep` between each two.
pub open spec fn joined(parts: Seq<Seq<char>>, sep: Seq<char>) -> Seq<char>
    decreases parts.len(),
{
    if parts.len() == 0 {
        Seq::empty()
    } else if parts.len() == 1 {
        parts[0]
    } else {
        joined(parts.drop_last(), sep) + sep + parts.last()
    }
}

/// Text of a time (seconds since the Unix epoch) as the date library
/// writes it in UTC, or `None` where the library has no such time.
pub uninterp spec fn utc_text(secs: int) -> Option<Seq<char>>;

/// Relies on chrono's `DateTime::<Utc>::from_timestamp` (with no
/// nanoseconds) and its `Display`: the text depends on the seconds alone,
/// and every time within about 7900 years of the epoch exists.
#[verifier::external_body]
fn timestamp_text(secs: i64) -> (r: Option<String>)
    ensures
        match r {
            Some(s) => utc_text(secs as int) == Some(s@),
            None => utc_text(secs as int) is None,
        },
        -250_000_000_000 <= secs <= 250_000_000_000 ==> r is Some,
{
    match chrono::DateTime::<chrono::Utc>::from_timestamp(secs, 0) {
        Some(d) => Some(d.to_string()),
        None => None,
    }
}

/// The text of one digit.
fn digit_str(d: u64) -> (r: &'static str)
    requires
        d < 10,
    ensures
        r@ == seq![digit_char(d as nat)],
{
    proof {
        reveal_strlit("0");
        reveal_strlit("1");
        reveal_strlit("2");
        reveal_strlit("3");
        reveal_strlit("4");
        reveal_strlit("5");
        reveal_strlit("6");
        reveal_strlit("7");
        reveal_strlit("8");
        reveal_strlit("9");
    }
    if d == 0 {
        "0"
    } else if d == 1 {
        "1"
    } else if d == 2 {
        "2"
    } else if d == 3 {
        "3"
    } else if d == 4 {
        "4"
    } else if d == 5 {
        "5"
    } else if d == 6 {
        "6"
    } else if d == 7 {
        "7"
    } else if d == 8 {
        "8"
    } else {
        "9"
    }
}

/// Appends the decimal writing of `n` to `s`.
fn push_decimal(s: &mut String, n: u64)
    ensures
        final(s)@ == old(s)@ + decimal(n as nat),
    decreases n,
{
    if n >= 10 {
        push_decimal(s, n / 10);
    }
    s.append(digit_str(n % 10));
    proof {
        if n < 10 {
            assert(n % 10 == n);
        }
    }
}

/// The decimal writing of `n`.
pub fn decimal_text(n: u64) -> (r: String)
    ensures
        r@ == decimal(n as nat),
{
    let mut s = String::new();
    push_decimal(&mut s, n);
    assert(s@ =~= decimal(n as nat));
    s
}

/// The writing of a flag, `true` or `false`.
pub fn bool_string(b: bool) -> (r: String)
    ensures
        r@ == bool_text(b),
{
    proof {
        reveal_strlit("true");
        reveal_strlit("false");
    }
    if b {
        String::from_str("true")
    } else {
        String::from_str("false")
    }
}

/// The parts joined with `sep` between each two.
pub fn join(parts: &Vec<String>, sep: &str) -> (r: String)
    ensures
        r@ == joined(parts@.map_values(|p: String| p@), sep@),
{
    let ghost ps = parts@.map_values(|p: String| p@);
    let mut s = String::new();
    let mut i: usize = 0;
    while i < parts.len()
        invariant
            i <= parts.len(),
            ps == parts@.map_values(|p: String| p@),
            s@ == joined(ps.take(i as int), sep@),
        decreases parts.len() - i,
    {
        if i > 0 {
            s.append(sep);
        }
        s.append(parts[i].as_str());
        proof {
            assert(ps.take(i + 1).drop_last() =~= ps.take(i as int));
            if i == 0 {
                assert(ps.take(0) =~= Seq::<Seq<char>>::empty());
                assert(s@ =~= ps.take(1)[0]);
            }
        }
        i = i + 1;
    }
    assert(ps.take(i as int) =~= ps);
    s
}

/// The pair `(key, value)` where a value is present, else nothing.
pub open spec fn field(key: Seq<char>, value: Option<Seq<char>>) -> Seq<(Seq<char>, Seq<char>)> {
    match value {
        Some(v) => seq![(key, v)],
        None => Seq::empty(),
    }
}

pub open spec fn number_field(key: Seq<char>, value: Option<u32>) -> Seq<(Seq<char>, Seq<char>)> {
    match value {
        Some(n) => field(key, Some(decimal(n as nat))),
        None => Seq::empty(),
    }
}

pub open spec fn flag_field(key: Seq<char>, value: Option<bool>) -> Seq<(Seq<char>, Seq<char>)> {
    match value {
        Some(b) => field(key, Some(bool_text(b))),
        None => Seq::empty(),
    }
}

pub open spec fn text_field(key: Seq<char>, value: Option<String>) -> Seq<(Seq<char>, Seq<char>)> {
    match value {
        Some(s) => field(key, Some(s@)),
        None => Seq::empty(),
    }
}

/// A time field: present where the time is given and can be written.
pub open spec fn time_field(key: Seq<char>, value: Option<i64>) -> Seq<(Seq<char>, Seq<char>)> {
    match value {
        Some(t) => field(key, utc_text(t as int)),
        None => Seq::empty(),
    }
}

/// Whether a time is given and lies within about 7900 years of the epoch,
/// where the date library writes every time.
pub open spec fn in_calendar(value: Option<i64>) -> bool {
    value is Some && -250_000_000_000 <= value->0 <= 250_000_000_000
}

fn push_pair(q: &mut Query, key: &str, value: String)
    ensures
        query_view(final(q)@) == query_view(old(q)@) + seq![(key@, value@)],
{
    let ghost before = q@;
    q.push((String::from_str(key), value));
    assert(query_view(q@) =~= query_view(before) + seq![(key@, value@)]);
}

fn push_number(q: &mut Query, key: &str, value: Option<u32>)
    ensures
        query_view(final(q)@) == query_view(old(q)@) + number_field(key@, value),
{
    match value {
        Some(n) => push_pair(q, key, decimal_text(n as u64)),
        None => assert(query_view(q@) =~= query_view(q@) + Seq::empty()),
    }
}

fn push_flag(q: &mut Query, key: &str, value: Option<bool>)
    ensures
        query_view(final(q)@) == query_view(old(q)@) + flag_field(key@, value),
{
    match value {
        Some(b) => push_pair(q, key, bool_string(b)),
        None => assert(query_view(q@) =~= query_view(q@) + Seq::empty()),
    }
}

fn push_text(q: &mut Query, key: &str, value: &Option<String>)
    ensures
        query_view(final(q)@) == query_view(old(q)@) + text_field(key@, *value),
{
    match value {
        Some(s) => push_pair(q, key, s.clone()),
        None => assert(query_view(q@) =~= query_view(q@) + Seq::empty()),
    }
}

fn push_time(q: &mut Query, key: &str, value: Option<i64>)
    ensures
        query_view(final(q)@) == query_view(old(q)@) + time_field(key@, value),
        in_calendar(value) ==> utc_text(value->0 as int) is Some,
{
    match value {
        Some(t) => match timestamp_text(t) {
            Some(s) => push_pair(q, key, s),
            None => assert(query_view(q@) =~= query_view(q@) + Seq::empty()),
        },
        None => assert(query_view(q@) =~= query_view(q@) + Seq::empty()),
    }
}

/// The server's name of the parameter that lists linked entities to embed.
pub open spec fn embed_key_text() -> Seq<char> {
    "inc"@ + "lude"@
}

fn embed_key() -> (r: String)
    ensures
        r@ == embed_key_text(),
{
    String::from_str("inc").concat("lude")
}

/// Filters of an events read. An absent field is left to the server's
/// default. Times are seconds since the Unix epoch.
pub struct EventOptions {
    /// Number of entries to return (server default 10, at most 100).
    pub limit: Option<u32>,
    /// Offset of the first entry (server default 0).
    pub offset: Option<u32>,
    /// Comma-separated names of linked entities to embed in the answer.
    pub embed: Option<String>,
    /// Only events of this type.
    pub event_type: Option<String>,
    /// Also return deleted events (server default false).
    pub deleted: Option<bool>,
    /// Only events from this time on.
    pub from: Option<i64>,
    /// Only events up to this time.
    pub to: Option<i64>,
    /// Filter moved events by their original date too (server default false).
    pub with_original_date: Option<bool>,
}

/// The query of an events read: one pair per present field, in the order
/// of the fields.
pub open spec fn event_query(o: EventOptions) -> Seq<(Seq<char>, Seq<char>)> {
    number_field("limit"@, o.limit) + number_field("offset"@, o.offset) + text_field(
        embed_key_text(),
        o.embed,
    ) + text_field("event_type"@, o.event_type) + flag_field("deleted"@, o.deleted)
        + time_field("from"@, o.from) + time_field("to"@, o.to) + flag_field(
        "with_original_date"@,
        o.with_original_date,
    )
}

impl EventOptions {
    /// Options that leave every filter to the server.
    pub fn new() -> (r: EventOptions)
        ensures
            event_query(r) == Seq::<(Seq<char>, Seq<char>)>::empty(),
    {
        let r = EventOptions {
            limit: None,
            offset: None,
            embed: None,
            event_type: None,
            deleted: None,
            from: None,
            to: None,
            with_original_date: None,
        };
        assert(event_query(r) =~= Seq::<(Seq<char>, Seq<char>)>::empty());
        r
    }

    /// The query pairs of the present fields.
    pub fn to_query(&self) -> (r: Query)
        ensures
            query_view(r@) == event_query(*self),
            in_calendar(self.from) ==> utc_text(self.from->0 as int) is Some,
            in_calendar(self.to) ==> utc_text(self.to->0 as int) is Some,
    {
        let mut q: Query = Vec::new();
        push_number(&mut q, "limit", self.limit);
        push_number(&mut q, "offset", self.offset);
        let key = embed_key();
        push_text(&mut q, key.as_str(), &self.embed);
        push_text(&mut q, "event_type", &self.event_type);
        push_flag(&mut q, "deleted", self.deleted);
        push_time(&mut q, "from", self.from);
        push_time(&mut q, "to", self.to);
        push_flag(&mut q, "with_original_date", self.with_original_date);
        assert(query_view(q@) =~= event_query(*self));
        q
    }

    /// The query pairs with the access token added last.
    pub fn with_token(&self, access_token: &str) -> (r: Query)
        ensures
            query_view(r@) == event_query(*self) + seq![("access_token"@, access_token@)],
            in_calendar(self.from) ==> utc_text(self.from->0 as int) is Some,
            in_calendar(self.to) ==> utc_text(self.to->0 as int) is Some,
    {
        let mut q = self.to_query();
        push_pair(&mut q, "access_token", String::from_str(access_token));
        q
    }
}

/// Filters of a news read. An absent field is left to the server's default.
/// Times are seconds since the Unix epoch.
pub struct NewsOptions {
    /// `default` (a list), `grouped` (by audience) or `jsonfeed`.
    pub representation: Option<String>,
    /// Only news of these course pages.
    pub courses: Option<Vec<String>>,
    /// Also return deleted news (server default false).
    pub deleted: Option<bool>,
    /// Most news to return; per course where grouped.
    pub limit: Option<u32>,
    /// Offset of the first item; ignored where grouped.
    pub offset: Option<u32>,
    /// Only news published from this time on.
    pub since: Option<i64>,
    /// Only news published up to this time.
    pub until: Option<i64>,
}

/// The course list of a news read, joined by commas.
pub open spec fn courses_field(courses: Option<Vec<String>>) -> Seq<(Seq<char>, Seq<char>)> {
    match courses {
        Some(cs) => field("courses"@, Some(joined(cs@.map_values(|p: String| p@), ","@))),
        None => Seq::empty(),
    }
}

/// The query of a news read: one pair per present field, in the order of
/// the fields.
pub open spec fn news_query(o: NewsOptions) -> Seq<(Seq<char>, Seq<char>)> {
    text_field("type"@, o.representation) + courses_field(o.courses) + flag_field(
        "deleted"@,
        o.deleted,
    ) + number_field("limit"@, o.limit) + number_field("offset"@, o.offset) + time_field(
        "since"@,
        o.since,
    ) + time_field("until"@, o.until)
}

impl NewsOptions {
    /// Options that leave every filter to the server.
    pub fn new() -> (r: NewsOptions)
        ensures
            news_query(r) == Seq::<(Seq<char>, Seq<char>)>::empty(),
    {
        let r = NewsOptions {
            representation: None,
            courses: None,
            deleted: None,
            limit: None,
            offset: None,
            since: None,
            until: None,
        };
        assert(news_query(r) =~= Seq::<(Seq<char>, Seq<char>)>::empty());
        r
    }

    /// Whether the answer comes grouped by audience rather than as a list.
    pub fn is_grouped(&self) -> (r: bool)
        ensures
            r == (self.representation is Some && self.representation->0@ == "grouped"@),
    {
        proof {
            reveal_strlit("grouped");
        }
        match &self.representation {
            Some(rep) => {
                let grouped = String::from_str("grouped");
                *rep == grouped
            },
            None => false,
        }
    }

    /// The query pairs of the present fields.
    pub fn to_query(&self) -> (r: Query)
        ensures
            query_view(r@) == news_query(*self),
            in_calendar(self.since) ==> utc_text(self.since->0 as int) is Some,
            in_calendar(self.until) ==> utc_text(self.until->0 as int) is Some,
    {
        let mut q: Query = Vec::new();
        push_text(&mut q, "type", &self.representation);
        match &self.courses {
            Some(cs) => push_pair(&mut q, "courses", join(cs, ",")),
            None => {},
        }
        push_flag(&mut q, "deleted", self.deleted);
        push_number(&mut q, "limit", self.limit);
        push_number(&mut q, "offset", self.offset);
        push_time(&mut q, "since", self.since);
        push_time(&mut q, "until", self.until);
        assert(query_view(q@) =~= news_query(*self));
        q
    }

    /// The query pairs with the access token added last.
    pub fn with_token(&self, access_token: &str) -> (r: Query)
        ensures
            query_view(r@) == news_query(*self) + seq![("access_token"@, access_token@)],
            in_calendar(self.since) ==> utc_text(self.since->0 as int) is Some,
            in_calendar(self.until) ==> utc_text(self.until->0 as int) is Some,
    {
        let mut q = self.to_query();
        push_pair(&mut q, "access_token", String::from_str(access_token));
        q
    }
}

} // verus!
