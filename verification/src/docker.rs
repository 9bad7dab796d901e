//! Container networking: what the Docker event listener does with the
//! events it receives, when it gives up, how container names are read, and
//! how the interface index of a container is found in its IGMP table.
use vstd::prelude::*;
use vstd::string::StrSliceExecFns;
use regex::Regex;

verus! {

// ---------------------------------------------------------------------------
// Events.
// ---------------------------------------------------------------------------

/// The kind of object a Docker event is about.
#[derive(Clone, Copy, PartialEq, Eq, Structural, Debug)]
pub enum DockerEventType {
    Container,
    Network,
    Other,
}

/// A Docker event, with what the listener reads of it: its kind, its
/// action, the id of its actor and the actor's `name` attribute.
pub struct DockerEvent {
    pub typ: Option<DockerEventType>,
    pub action: Option<String>,
    pub actor_id: Option<String>,
    pub actor_name: Option<String>,
}

/// What the listener does for an event.
pub enum DockerEventAction {
    /// A container stopped: remove its IPv4 and IPv6 routes.
    RemoveContainerRoutes(String),
    /// A network was created: inspect it and add the route to it.
    AddNetworkRoute(String),
    /// A network was destroyed: remove the route to it.
    RemoveNetworkRoute(String),
    /// An event of another kind: log it.
    Log,
    /// Nothing.
    Ignore,
}

/// What the listener does for an event: a container's `stop` with a name
/// removes its routes; a network's `create` or `destroy` with an id adds or
/// removes the route to it; an event of no known kind is logged; anything
/// else is ignored.
pub open spec fn event_action(e: DockerEvent) -> DockerEventAction {
    match e.typ {
        Some(DockerEventType::Container) => match (e.action, e.actor_name) {
            (Some(a), Some(n)) => if a@ == "stop"@ { DockerEventAction::RemoveContainerRoutes(n) } else { DockerEventAction::Ignore },
            _ => DockerEventAction::Ignore,
        },
        Some(DockerEventType::Network) => match (e.action, e.actor_id) {
            (Some(a), Some(id)) => if a@ == "create"@ {
                DockerEventAction::AddNetworkRoute(id)
            } else if a@ == "destroy"@ {
                DockerEventAction::RemoveNetworkRoute(id)
            } else {
                DockerEventAction::Ignore
            },
            _ => DockerEventAction::Ignore,
        },
        _ => DockerEventAction::Log,
    }
}

fn text_is(s: &String, t: &str) -> (r: bool)
    ensures
        r == (s@ == t@),
{
    let n = s.as_str().unicode_len();
    if n != t.unicode_len() {
        return false;
    }
    let mut i: usize = 0;
    while i < n
        invariant
            n == s@.len(),
            n == t@.len(),
            i <= n,
            forall|j: int| 0 <= j < i ==> s@[j] == t@[j],
        decreases n - i,
    {
        if s.as_str().get_char(i) != t.get_char(i) {
            return false;
        }
        i = i + 1;
    }
    assert(s@ =~= t@);
    true
}

/// What the listener does for an event (see `event_action`).
pub fn handle_event(e: DockerEvent) -> (r: DockerEventAction)
    ensures
        r == event_action(e),
{
    match e.typ {
        Some(DockerEventType::Container) => match (e.action, e.actor_name) {
            (Some(a), Some(n)) => {
                if text_is(&a, "stop") {
                    DockerEventAction::RemoveContainerRoutes(n)
                } else {
                    DockerEventAction::Ignore
                }
            },
            _ => DockerEventAction::Ignore,
        },
        Some(DockerEventType::Network) => match (e.action, e.actor_id) {
            (Some(a), Some(id)) => {
                if text_is(&a, "create") {
                    DockerEventAction::AddNetworkRoute(id)
                } else if text_is(&a, "destroy") {
                    DockerEventAction::RemoveNetworkRoute(id)
                } else {
                    DockerEventAction::Ignore
                }
            },
            _ => DockerEventAction::Ignore,
        },
        _ => DockerEventAction::Log,
    }
}

// ---------------------------------------------------------------------------
// The listening loop.
// ---------------------------------------------------------------------------

/// Failed pings after which the listener stops.
pub const MAX_PING_FAILURES: u32 = 3;

/// What woke the listening loop.
pub enum ListenWake {
    /// The event stream gave an event, a read error, or ended.
    Event(Option<Result<DockerEvent, ()>>),
    /// A container reported itself on the local socket.
    Enroll,
    /// The service status changed; whether the watch failed, and whether
    /// the service is now exiting.
    StatusChanged { watch_failed: bool, exiting: bool },
    /// The ping timer fired; whether the service is running, and whether
    /// the ping succeeded (asked only when it is running).
    Tick { running: bool, ping_ok: bool },
}

/// What the listening loop does next.
pub enum ListenStep {
    /// Handle an event, then go on.
    Handle(DockerEventAction),
    /// Serve the enrolment, then go on.
    Enroll,
    /// Go on, with this count of failed pings.
    Continue(u32),
    /// Leave the loop and report the service stopped.
    Stop,
}

/// One wake of the listening loop, given the failed pings so far: an event
/// is handled, a read error skipped, the end of the stream stops the loop;
/// a failed status watch or an exiting service stops it; a tick while
/// running pings, and the failures it counts, never reset, stop the loop
/// when they reach `MAX_PING_FAILURES`.
pub open spec fn listen_step_of(timeouts: u32, wake: ListenWake) -> ListenStep {
    match wake {
        ListenWake::Event(Some(Ok(e))) => ListenStep::Handle(event_action(e)),
        ListenWake::Event(Some(Err(_))) => ListenStep::Continue(timeouts),
        ListenWake::Event(None) => ListenStep::Stop,
        ListenWake::Enroll => ListenStep::Enroll,
        ListenWake::StatusChanged { watch_failed, exiting } => if watch_failed || exiting {
            ListenStep::Stop
        } else {
            ListenStep::Continue(timeouts)
        },
        ListenWake::Tick { running, ping_ok } => if running && !ping_ok {
            if timeouts + 1 >= MAX_PING_FAILURES { ListenStep::Stop } else { ListenStep::Continue((timeouts + 1) as u32) }
        } else {
            ListenStep::Continue(timeouts)
        },
    }
}

/// One wake of the listening loop (see `listen_step_of`).
pub fn listen_step(timeouts: u32, wake: ListenWake) -> (r: ListenStep)
    ensures
        r == listen_step_of(timeouts, wake),
        timeouts < MAX_PING_FAILURES ==> (r matches ListenStep::Continue(t) ==> t < MAX_PING_FAILURES),
{
    match wake {
        ListenWake::Event(Some(Ok(e))) => ListenStep::Handle(handle_event(e)),
        ListenWake::Event(Some(Err(_))) => ListenStep::Continue(timeouts),
        ListenWake::Event(None) => ListenStep::Stop,
        ListenWake::Enroll => ListenStep::Enroll,
        ListenWake::StatusChanged { watch_failed, exiting } => {
            if watch_failed || exiting {
                ListenStep::Stop
            } else {
                ListenStep::Continue(timeouts)
            }
        },
        ListenWake::Tick { running, ping_ok } => {
            if running && !ping_ok {
                if timeouts >= MAX_PING_FAILURES - 1 {
                    ListenStep::Stop
                } else {
                    ListenStep::Continue(timeouts + 1)
                }
            } else {
                ListenStep::Continue(timeouts)
            }
        },
    }
}

/// Where `n` failed pings in a row, while the service runs, lead from a
/// count of `t`: the step of the last of them, or going on with `t` when
/// there are none.
pub open spec fn after_failed_pings(t: u32, n: nat) -> ListenStep
    decreases n,
{
    if n == 0 {
        ListenStep::Continue(t)
    } else {
        match listen_step_of(t, ListenWake::Tick { running: true, ping_ok: false }) {
            ListenStep::Continue(t2) => after_failed_pings(t2, (n - 1) as nat),
            other => other,
        }
    }
}

/// The listener stops once the service has failed `MAX_PING_FAILURES` pings:
/// from a count `t`, the remaining failures stop it.
pub proof fn lemma_listener_stops_after_failed_pings(t: u32)
    requires
        t < MAX_PING_FAILURES,
    ensures
        after_failed_pings(t, (MAX_PING_FAILURES - t) as nat) is Stop,
    decreases MAX_PING_FAILURES - t,
{
    if t + 1 < MAX_PING_FAILURES {
        lemma_listener_stops_after_failed_pings((t + 1) as u32);
    }
}

// ---------------------------------------------------------------------------
// Container names.
// ---------------------------------------------------------------------------

/// A container name as Docker reports it, with its leading `/` dropped.
pub open spec fn bare_name(name: Seq<char>) -> Seq<char> {
    if name.len() > 0 && name[0] == '/' { name.drop_first() } else { name }
}

fn chars_of(s: &str) -> (r: Vec<char>)
    ensures
        r@ == s@,
{
    let n = s.unicode_len();
    let mut r: Vec<char> = Vec::new();
    let mut i: usize = 0;
    while i < n
        invariant
            n == s@.len(),
            i <= n,
            r@ == s@.take(i as int),
        decreases n - i,
    {
        r.push(s.get_char(i));
        assert(s@.take(i + 1) =~= s@.take(i as int).push(s@[i as int]));
        i = i + 1;
    }
    assert(s@.take(n as int) =~= s@);
    r
}

fn tail_of(s: &str) -> (r: String)
    requires
        s@.len() > 0,
    ensures
        r@ == s@.drop_first(),
{
    let n = s.unicode_len();
    let t = s.substring_char(1, n);
    assert(s@.subrange(1, n as int) =~= s@.drop_first());
    t.to_owned()
}

/// The name of an inspected container, without its leading `/`.
pub fn container_name(name: String) -> (r: String)
    ensures
        r@ == bare_name(name@),
{
    let n = name.as_str().unicode_len();
    if n > 0 && name.as_str().get_char(0) == '/' {
        tail_of(name.as_str())
    } else {
        name
    }
}

/// The name a listed container is routed by: its first name, when it
/// starts with `/`, without it; none otherwise.
pub fn summary_container_name(names: &Option<Vec<String>>) -> (r: Option<String>)
    ensures
        r.is_some() == (*names matches Some(v) && v.len() > 0 && v[0]@.len() > 0 && v[0]@[0] == '/'),
        r matches Some(s) ==> (*names matches Some(v) && s@ == v[0]@.drop_first()),
{
    match names {
        Some(v) => {
            if v.len() == 0 {
                return None;
            }
            let first = v[0].as_str();
            if first.unicode_len() > 0 && first.get_char(0) == '/' {
                Some(tail_of(first))
            } else {
                None
            }
        },
        None => None,
    }
}

// ---------------------------------------------------------------------------
// The IGMP table of a container.
// ---------------------------------------------------------------------------

/// The text of the first match of the pattern `\d+` in a line, as the
/// `regex` crate finds it: the leftmost run of Unicode decimal digits.
pub uninterp spec fn regex_first_digit_run(line: Seq<char>) -> Option<Seq<char>>;

/// Whether every character of a text is ASCII.
pub open spec fn ascii_text(s: Seq<char>) -> bool {
    forall|k: int| 0 <= k < s.len() ==> (#[trigger] s[k] as u32) < 128
}

/// The longest run of ASCII digits that starts at `i`.
pub open spec fn digit_run_from(s: Seq<char>, i: int) -> Seq<char>
    decreases s.len() - i,
{
    if 0 <= i < s.len() && is_ascii_digit(s[i]) {
        seq![s[i]] + digit_run_from(s, i + 1)
    } else {
        Seq::empty()
    }
}

/// Whether `i` is the position of the first ASCII digit of a text.
pub open spec fn first_digit_at(s: Seq<char>, i: int) -> bool {
    &&& 0 <= i < s.len()
    &&& is_ascii_digit(s[i])
    &&& forall|j: int| 0 <= j < i ==> !is_ascii_digit(#[trigger] s[j])
}

/// Finds the first run of digits in a line with `regex::Regex::find` and the
/// pattern `\d+`. The contract names the match and states that it is a
/// non-empty piece of the line. On an ASCII line it also states the match,
/// as the regex documentation gives it (`\d` is a Unicode decimal digit,
/// which among ASCII characters are `0` to `9`; `find` takes the leftmost
/// match, which `+` extends as far as it can): there is one exactly when the
/// line holds a digit, and it is the longest run of digits from the first
/// one. Which non-ASCII characters count as digits is left unsaid.
#[verifier::external_body]
fn find_digit_run(line: &str) -> (r: Option<String>)
    ensures
        r.is_some() == regex_first_digit_run(line@).is_some(),
        r is None ==> (ascii_text(line@) ==> forall|i: int| 0 <= i < line@.len() ==> !is_ascii_digit(#[trigger] line@[i])),
        r matches Some(s) ==> (ascii_text(line@) ==> exists|i: int|
            #[trigger] first_digit_at(line@, i) && s@ == digit_run_from(line@, i)),
        r matches Some(s) ==> {
            &&& Some(s@) == regex_first_digit_run(line@)
            &&& s@.len() > 0
            &&& exists|i: int| 0 <= i && i + s@.len() <= line@.len() && #[trigger] line@.subrange(i, i + s@.len()) == s@
        },
{
    let re = Regex::new(r"\d+").unwrap();
    match re.find(line) {
        Some(m) => Some(m.as_str().to_string()),
        None => None,
    }
}

/// Whether a character is an ASCII decimal digit.
pub open spec fn is_ascii_digit(c: char) -> bool {
    '0' <= c <= '9'
}

/// The value of a string of ASCII digits.
pub open spec fn digits_value(s: Seq<char>) -> nat
    decreases s.len(),
{
    if s.len() == 0 {
        0
    } else {
        digits_value(s.drop_last()) * 10 + ((s.last() as u32) - ('0' as u32)) as nat
    }
}

/// A text without its leading `+`, if it has one.
pub open spec fn unsigned_digits(s: Seq<char>) -> Seq<char> {
    if s.len() > 0 && s[0] == '+' { s.drop_first() } else { s }
}

/// Whether every character of a text is an ASCII digit.
pub open spec fn all_ascii_digits(d: Seq<char>) -> bool {
    forall|i: int| 0 <= i < d.len() ==> is_ascii_digit(#[trigger] d[i])
}

/// The number a text reads as in the way of `str::parse::<u32>`: an
/// optional `+` followed by at least one ASCII digit, with a value that fits.
pub open spec fn parse_u32_spec(s: Seq<char>) -> Option<u32> {
    let d = unsigned_digits(s);
    if d.len() > 0 && all_ascii_digits(d) && digits_value(d) <= u32::MAX {
        Some(digits_value(d) as u32)
    } else {
        None
    }
}

proof fn lemma_digits_value_grows(s: Seq<char>, c: char)
    requires
        is_ascii_digit(c),
    ensures
        digits_value(s.push(c)) >= digits_value(s),
        digits_value(s.push(c)) == digits_value(s) * 10 + ((c as u32) - ('0' as u32)),
{
    assert(s.push(c).drop_last() =~= s);
}

proof fn lemma_digits_value_prefix(s: Seq<char>, i: int)
    requires
        0 <= i <= s.len(),
        forall|j: int| 0 <= j < s.len() ==> is_ascii_digit(#[trigger] s[j]),
    ensures
        digits_value(s.take(i)) <= digits_value(s),
    decreases s.len() - i,
{
    if i < s.len() {
        lemma_digits_value_prefix(s, i + 1);
        assert(s.take(i + 1) =~= s.take(i).push(s[i]));
        lemma_digits_value_grows(s.take(i), s[i]);
    } else {
        assert(s.take(i) =~= s);
    }
}

/// Reads a text as `str::parse::<u32>` does (see `parse_u32_spec`).
pub fn parse_u32(s: &Vec<char>) -> (r: Option<u32>)
    ensures
        r == parse_u32_spec(s@),
{
    let start: usize = if s.len() > 0 && s[0] == '+' { 1 } else { 0 };
    let ghost d = unsigned_digits(s@);
    assert(d =~= s@.skip(start as int));
    if start >= s.len() {
        return None;
    }
    let mut v: u64 = 0;
    let mut i: usize = start;
    while i < s.len()
        invariant
            start <= i <= s.len(),
            d == unsigned_digits(s@),
            d =~= s@.skip(start as int),
            forall|j: int| 0 <= j < i - start ==> is_ascii_digit(#[trigger] d[j]),
            v == digits_value(d.take(i - start)),
            v <= u32::MAX,
        decreases s.len() - i,
    {
        let c = s[i];
        if !('0' <= c && c <= '9') {
            assert(!is_ascii_digit(d[i - start]));
            assert(!all_ascii_digits(d));
            return None;
        }
        proof {
            assert(d.take(i - start + 1) =~= d.take(i - start).push(c));
            lemma_digits_value_grows(d.take(i - start), c);
        }
        let digit = (c as u32 - '0' as u32) as u64;
        v = v * 10 + digit;
        if v > 0xffff_ffff {
            proof {
                assert(v == digits_value(d.take(i - start + 1)));
                if all_ascii_digits(d) {
                    lemma_digits_value_prefix(d, i - start + 1);
                }
            }
            return None;
        }
        i = i + 1;
    }
    assert(d.take(d.len() as int) =~= d);
    Some(v as u32)
}

/// Whether a line holds the text `lo`.
pub open spec fn contains_lo(line: Seq<char>) -> bool {
    exists|i: int| 0 <= i && i + 1 < line.len() && #[trigger] line[i] == 'l' && line[i + 1] == 'o'
}

/// The index a line gives, if it gives one: lines that do not start with an
/// ASCII digit or that hold `lo` give none; otherwise the first run of
/// digits, if it reads as a `u32`.
pub open spec fn igmp_line_index(line: Seq<char>) -> Option<u32> {
    if line.len() == 0 || !is_ascii_digit(line[0]) || contains_lo(line) {
        None
    } else {
        match regex_first_digit_run(line) {
            Some(run) => parse_u32_spec(run),
            None => None,
        }
    }
}

/// The index an ASCII line gives: as `igmp_line_index`, with the first run of
/// digits spelled out.
pub open spec fn igmp_line_index_ascii(line: Seq<char>) -> Option<u32> {
    if line.len() == 0 || !is_ascii_digit(line[0]) || contains_lo(line) {
        None
    } else {
        parse_u32_spec(digit_run_from(line, 0))
    }
}

/// The interface index an IGMP table of ASCII lines gives.
pub open spec fn igmp_index_ascii(lines: Seq<String>) -> Option<u32>
    decreases lines.len(),
{
    if lines.len() == 0 {
        None
    } else {
        match igmp_line_index_ascii(lines[0]@) {
            Some(n) => Some(n),
            None => igmp_index_ascii(lines.drop_first()),
        }
    }
}

/// The interface index an IGMP table gives: that of its first line that
/// gives one.
pub open spec fn igmp_index(lines: Seq<String>) -> Option<u32>
    decreases lines.len(),
{
    if lines.len() == 0 {
        None
    } else {
        match igmp_line_index(lines[0]@) {
            Some(n) => Some(n),
            None => igmp_index(lines.drop_first()),
        }
    }
}

fn has_lo(c: &Vec<char>) -> (r: bool)
    ensures
        r == contains_lo(c@),
{
    let mut i: usize = 0;
    while c.len() > 0 && i < c.len() - 1
        invariant
            forall|j: int| 0 <= j < i && j + 1 < c@.len() ==> !(#[trigger] c@[j] == 'l' && c@[j + 1] == 'o'),
        decreases c.len() - i,
    {
        if c[i] == 'l' && c[i + 1] == 'o' {
            return true;
        }
        i = i + 1;
    }
    false
}

fn line_index(line: &String) -> (r: Option<u32>)
    ensures
        r == igmp_line_index(line@),
        ascii_text(line@) ==> r == igmp_line_index_ascii(line@),
{
    let c = chars_of(line.as_str());
    if c.len() == 0 || !('0' <= c[0] && c[0] <= '9') || has_lo(&c) {
        return None;
    }
    assert(is_ascii_digit(line@[0]));
    match find_digit_run(line.as_str()) {
        Some(run) => {
            let rc = chars_of(run.as_str());
            parse_u32(&rc)
        },
        None => None,
    }
}

/// The interface index in the IGMP table of a container (the lines of its
/// `/proc/<pid>/net/igmp`): that of the first line that starts with a digit,
/// does not hold `lo` and whose first run of digits reads as a `u32`.
pub fn read_igmp_index(lines: &Vec<String>) -> (r: Option<u32>)
    ensures
        r == igmp_index(lines@),
        (forall|k: int| 0 <= k < lines.len() ==> ascii_text(#[trigger] lines@[k]@)) ==> r == igmp_index_ascii(lines@),
{
    let mut i: usize = 0;
    assert(lines@.skip(0) =~= lines@);
    while i < lines.len()
        invariant
            i <= lines.len(),
            igmp_index(lines@) == igmp_index(lines@.skip(i as int)),
            (forall|k: int| 0 <= k < lines.len() ==> ascii_text(#[trigger] lines@[k]@)) ==> igmp_index_ascii(lines@)
                == igmp_index_ascii(lines@.skip(i as int)),
        decreases lines.len() - i,
    {
        assert(lines@.skip(i as int)[0] == lines@[i as int]);
        assert(lines@.skip(i as int).drop_first() =~= lines@.skip(i + 1));
        match line_index(&lines[i]) {
            Some(n) => {
                return Some(n);
            },
            None => {},
        }
        i = i + 1;
    }
    None
}

} // verus!
