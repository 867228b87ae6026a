use vstd::prelude::*;
use vstd::string::StringSliceAdditionalSpecFns;
use crate::ip::IpAddress;
pub use crate::metadata::Asn;
use crate::text::{
    trim_spec,
    trim_start_spec,
    trim_end_spec,
    trim_bounds,
    parse_u32_dec,
    parses_as_u32,
    dec_value,
    dec_digits,
    lemma_dec_digits_value,
    is_digit,
    is_ws,
    first_index_of,
    find_first,
    lower_seq,
    eq_ignore_ascii_case,
    bytes_to_vec,
};

verus! {

/// Outcome of polling an ASN lookup.
#[derive(Debug, Clone, Copy, PartialEq, Eq, Structural)]
pub enum AsnResult {
    Pending,
    Found(Asn),
    NotFound,
}

/// An ASN written as bare digits, with surrounding whitespace ignored.
pub open spec fn parse_asn_unprefixed_spec(s: Seq<u8>) -> Option<Asn> {
    if parses_as_u32(trim_spec(s)) {
        Some(Asn(dec_value(trim_spec(s)) as u32))
    } else {
        None
    }
}

/// The first index at which the two bytes `AS` occur, if any.
pub open spec fn first_as_index(s: Seq<u8>) -> Option<int>
    decreases s.len(),
{
    if s.len() < 2 {
        None
    } else if s[0] == 65 && s[1] == 83 {
        Some(0int)
    } else {
        match first_as_index(s.drop_first()) {
            Some(j) => Some(j + 1),
            None => None,
        }
    }
}

/// An ASN written with an `AS` prefix: the digits after the first `AS`.
pub open spec fn parse_asn_prefixed_spec(s: Seq<u8>) -> Option<Asn> {
    match first_as_index(s) {
        Some(i) => parse_asn_unprefixed_spec(s.skip(i + 2)),
        None => None,
    }
}

/// An ASN in either form: the prefixed reading is preferred.
pub open spec fn parse_asn_ignore_prefix_spec(s: Seq<u8>) -> Option<Asn> {
    if parse_asn_prefixed_spec(s) is Some {
        parse_asn_prefixed_spec(s)
    } else {
        parse_asn_unprefixed_spec(s)
    }
}

fn parse_asn_bytes(b: &[u8]) -> (r: Option<Asn>)
    ensures
        r == parse_asn_unprefixed_spec(b@),
{
    let bounds = trim_bounds(b);
    let t = &b[bounds.0..bounds.1];
    match parse_u32_dec(t) {
        Some(v) => Some(Asn(v)),
        None => None,
    }
}

fn find_as(b: &[u8]) -> (r: Option<usize>)
    ensures
        match r {
            Some(i) => first_as_index(b@) == Some(i as int) && i + 2 <= b@.len(),
            None => first_as_index(b@) is None,
        },
{
    let n = b.len();
    proof {
        assert(b@.skip(0) =~= b@);
    }
    if n < 2 {
        return None;
    }
    let mut i: usize = 0;
    while i <= n - 2
        invariant
            n == b@.len(),
            2 <= n,
            0 <= i <= n,
            first_as_index(b@) == (match first_as_index(b@.skip(i as int)) {
                Some(j) => Some(j + i),
                None => None::<int>,
            }),
        decreases n - i,
    {
        if b[i] == 65 && b[i + 1] == 83 {
            proof {
                assert(b@.skip(i as int)[0] == 65 && b@.skip(i as int)[1] == 83);
            }
            return Some(i);
        }
        proof {
            assert(b@.skip(i as int).drop_first() =~= b@.skip(i as int + 1));
        }
        i += 1;
    }
    proof {
        assert(b@.skip(i as int).len() < 2);
    }
    None
}

/// Parses an ASN given as bare digits, such as `64500`.
pub fn try_parse_asn_unprefixed(text: &str) -> (r: Option<Asn>)
    ensures
        r == parse_asn_unprefixed_spec(text.spec_bytes()),
{
    parse_asn_bytes(text.as_bytes())
}

fn parse_asn_prefixed_bytes(b: &[u8]) -> (r: Option<Asn>)
    ensures
        r == parse_asn_prefixed_spec(b@),
{
    let n = b.len();
    match find_as(b) {
        Some(i) => {
            let rest = &b[i + 2..n];
            proof {
                assert(rest@ =~= b@.skip(i as int + 2));
            }
            parse_asn_bytes(rest)
        },
        None => None,
    }
}

/// Parses an ASN written with a prefix, such as `AS64500`.
pub fn try_parse_asn_prefixed(text: &str) -> (r: Option<Asn>)
    ensures
        r == parse_asn_prefixed_spec(text.spec_bytes()),
{
    parse_asn_prefixed_bytes(text.as_bytes())
}

fn parse_asn_ignore_bytes(b: &[u8]) -> (r: Option<Asn>)
    ensures
        r == parse_asn_ignore_prefix_spec(b@),
{
    match parse_asn_prefixed_bytes(b) {
        Some(a) => Some(a),
        None => parse_asn_bytes(b),
    }
}

/// Parses an ASN in either form, preferring the prefixed reading.
pub fn try_parse_asn_ignore_prefix(text: &str) -> (r: Option<Asn>)
    ensures
        r == parse_asn_ignore_prefix_spec(text.spec_bytes()),
{
    parse_asn_ignore_bytes(text.as_bytes())
}

/// Rendering an ASN as `AS` plus its decimal digits (`Asn::code`) and
/// parsing that text back recovers the ASN exactly.
pub proof fn lemma_asn_code_round_trip(asn: Asn)
    ensures
        parse_asn_ignore_prefix_spec(seq![65u8, 83u8] + dec_digits(asn.0 as int)) == Some(asn),
{
    let digits = dec_digits(asn.0 as int);
    let s = seq![65u8, 83u8] + digits;
    lemma_dec_digits_value(asn.0 as int);
    assert(s[0] == 65 && s[1] == 83);
    assert(first_as_index(s) == Some(0int));
    assert(s.skip(2) =~= digits);
    assert(trim_start_spec(digits) == digits) by {
        assert(is_digit(digits[0]));
    }
    assert(trim_end_spec(digits) == digits) by {
        assert(is_digit(digits[digits.len() - 1]));
    }
    assert(parses_as_u32(digits));
    assert(parse_asn_unprefixed_spec(digits) == Some(Asn(asn.0)));
}

/// What a `Key: Value` line of a normal WHOIS server means: an `OriginAS`
/// key with a parsable ASN answers at once; `origin`, `refer` and `whois`
/// are remembered for the end of the stream; all else is ignored. Keys are
/// matched case-insensitively; keys and values are trimmed.
pub enum NormalLineClass {
    FoundOrigin(Asn),
    StoreOrigin(Asn),
    StoreRefer(Seq<u8>),
    StoreWhois(Seq<u8>),
    Ignore,
}

pub open spec fn classify_normal_line(s: Seq<u8>) -> NormalLineClass {
    match first_index_of(s, 58) {
        None => NormalLineClass::Ignore,
        Some(i) => {
            let key = lower_seq(trim_spec(s.subrange(0, i)));
            let value = trim_spec(s.skip(i + 1));
            if key == lower_seq("originas".spec_bytes()) {
                match parse_asn_ignore_prefix_spec(value) {
                    Some(a) => NormalLineClass::FoundOrigin(a),
                    None => NormalLineClass::Ignore,
                }
            } else if key == lower_seq("origin".spec_bytes()) {
                match parse_asn_ignore_prefix_spec(value) {
                    Some(a) => NormalLineClass::StoreOrigin(a),
                    None => NormalLineClass::Ignore,
                }
            } else if key == lower_seq("refer".spec_bytes()) {
                NormalLineClass::StoreRefer(value)
            } else if key == lower_seq("whois".spec_bytes()) {
                NormalLineClass::StoreWhois(value)
            } else {
                NormalLineClass::Ignore
            }
        },
    }
}

/// The line parser for a normal (`Key: Value`) WHOIS server. `OriginAS` has
/// the highest precedence and answers immediately; otherwise `origin`,
/// `refer` and `whois` are kept until the end of the stream.
#[derive(Debug, Clone, PartialEq, Eq)]
pub struct NormalParser {
    pub line_origin: Option<Asn>,
    pub line_refer: Option<Vec<u8>>,
    pub line_whois: Option<Vec<u8>>,
}

/// What a normal server's parser concludes when its stream ends.
#[derive(Debug, Clone, PartialEq, Eq)]
pub enum EofOutcome {
    Found(Asn),
    Redirect(Vec<u8>),
    NotFound,
}

/// What feeding one line does to a normal server's parser, and whether it
/// answered at once.
pub open spec fn normal_line_effect(
    pre: NormalParser,
    post: NormalParser,
    s: Seq<u8>,
    answered: Option<Asn>,
) -> bool {
    match classify_normal_line(s) {
        NormalLineClass::FoundOrigin(a) => answered == Some(a) && post == pre,
        NormalLineClass::StoreOrigin(a) => answered is None && post.line_origin == Some(a)
            && post.line_refer == pre.line_refer && post.line_whois == pre.line_whois,
        NormalLineClass::StoreRefer(v) => answered is None && (match post.line_refer {
            Some(x) => x@ == v,
            None => false,
        }) && post.line_origin == pre.line_origin && post.line_whois == pre.line_whois,
        NormalLineClass::StoreWhois(v) => answered is None && (match post.line_whois {
            Some(x) => x@ == v,
            None => false,
        }) && post.line_origin == pre.line_origin && post.line_refer == pre.line_refer,
        NormalLineClass::Ignore => answered is None && post == pre,
    }
}

/// What a normal server's parser concludes at end of stream: a stored
/// `origin` answers; else a stored `refer` (preferred) or `whois` server is
/// followed; else the source knows nothing.
pub open spec fn normal_eof_effect(p: NormalParser, out: EofOutcome) -> bool {
    match p.line_origin {
        Some(a) => out == EofOutcome::Found(a),
        None => match p.line_refer {
            Some(srv) => out matches EofOutcome::Redirect(v) && v@ == srv@,
            None => match p.line_whois {
                Some(srv) => out matches EofOutcome::Redirect(v) && v@ == srv@,
                None => out == EofOutcome::NotFound,
            },
        },
    }
}

impl NormalParser {
    pub fn new() -> (p: Self)
        ensures
            p.line_origin is None,
            p.line_refer is None,
            p.line_whois is None,
    {
        NormalParser { line_origin: None, line_refer: None, line_whois: None }
    }

    /// Feeds one line; returns the ASN when the line answers immediately.
    pub fn on_line(&mut self, line: &str) -> (r: Option<Asn>)
        ensures
            normal_line_effect(*old(self), *final(self), line.spec_bytes(), r),
    {
        let b = line.as_bytes();
        let n = b.len();
        match find_first(b, 58) {
            None => None,
            Some(i) => {
                let keyraw = &b[0..i];
                let kb = trim_bounds(keyraw);
                let key = &keyraw[kb.0..kb.1];
                let valraw = &b[i + 1..n];
                proof {
                    assert(valraw@ =~= b@.skip(i as int + 1));
                }
                let vb = trim_bounds(valraw);
                let value = &valraw[vb.0..vb.1];
                if eq_ignore_ascii_case(key, "originas".as_bytes()) {
                    match parse_asn_ignore_bytes(value) {
                        Some(a) => Some(a),
                        None => None,
                    }
                } else if eq_ignore_ascii_case(key, "origin".as_bytes()) {
                    match parse_asn_ignore_bytes(value) {
                        Some(a) => {
                            self.line_origin = Some(a);
                            None
                        },
                        None => None,
                    }
                } else if eq_ignore_ascii_case(key, "refer".as_bytes()) {
                    self.line_refer = Some(bytes_to_vec(value));
                    None
                } else if eq_ignore_ascii_case(key, "whois".as_bytes()) {
                    self.line_whois = Some(bytes_to_vec(value));
                    None
                } else {
                    None
                }
            },
        }
    }

    /// The conclusion at end of stream: a stored `origin` answers; else a
    /// stored `refer` (preferred) or `whois` server is followed; else the
    /// source knows nothing.
    pub fn on_eof(&self) -> (r: EofOutcome)
        ensures
            normal_eof_effect(*self, r),
    {
        match &self.line_origin {
            Some(a) => EofOutcome::Found(*a),
            None => match &self.line_refer {
                Some(srv) => EofOutcome::Redirect(bytes_to_vec(srv.as_slice())),
                None => match &self.line_whois {
                    Some(srv) => EofOutcome::Redirect(bytes_to_vec(srv.as_slice())),
                    None => EofOutcome::NotFound,
                },
            },
        }
    }
}

/// What a line of the Cymru server yields: the first `|`-delimited field,
/// read as a bare ASN; a line without `|` or without digits yields nothing.
pub open spec fn cymru_line_spec(s: Seq<u8>) -> Option<Asn> {
    match first_index_of(s, 124) {
        Some(i) => parse_asn_unprefixed_spec(s.subrange(0, i)),
        None => None,
    }
}

/// Reads one line in the Cymru pipe-delimited format.
pub fn cymru_line(line: &str) -> (r: Option<Asn>)
    ensures
        r == cymru_line_spec(line.spec_bytes()),
{
    let b = line.as_bytes();
    match find_first(b, 124) {
        Some(i) => {
            let field = &b[0..i];
            parse_asn_bytes(field)
        },
        None => None,
    }
}

/// What reading from a WHOIS socket produced: a full line, nothing yet
/// (would block or timed out), end of stream, or a hard error.
#[derive(Debug, Clone, PartialEq, Eq)]
pub enum WhoisRead {
    Line(String),
    NoData,
    Eof,
    Failed,
}

/// The sockets a WHOIS lookup runs over. `connect` opens a TCP connection
/// to the named server and sends the query for `ip`, returning a handle;
/// `None` means the connection could not be made. `read_line` reads one
/// line from a handle without blocking.
pub trait WhoisSockets {
    fn connect(&mut self, ip: &IpAddress, server: &[u8]) -> Option<usize>;

    fn read_line(&mut self, handle: usize) -> WhoisRead;
}

/// One WHOIS source: still reading, or settled with its conclusion
/// (`Some` an ASN was found; `None` the source knows nothing).
#[derive(Debug, Clone, PartialEq, Eq)]
pub enum SourceState {
    RunningNormal { handle: usize, parser: NormalParser },
    RunningCymru { handle: usize },
    Settled(Option<Asn>),
}

pub open spec fn source_result(s: SourceState) -> AsnResult {
    match s {
        SourceState::Settled(Some(a)) => AsnResult::Found(a),
        SourceState::Settled(None) => AsnResult::NotFound,
        _ => AsnResult::Pending,
    }
}

/// ASN finder racing the IANA, RADB and Cymru WHOIS servers.
#[derive(Debug, Clone, PartialEq, Eq)]
pub struct AsnFinder {
    pub ip: IpAddress,
    pub iana: SourceState,
    pub radb: SourceState,
    pub cymru: SourceState,
}

/// The aggregate of the three sources: the first found ASN wins, in the
/// order IANA, RADB, Cymru; all sources settled without an answer means
/// `NotFound`; anything still reading means `Pending`.
pub open spec fn aggregate_spec(f: AsnFinder) -> AsnResult {
    if source_result(f.iana) is Found {
        source_result(f.iana)
    } else if source_result(f.radb) is Found {
        source_result(f.radb)
    } else if source_result(f.cymru) is Found {
        source_result(f.cymru)
    } else if source_result(f.iana) is NotFound && source_result(f.radb) is NotFound
        && source_result(f.cymru) is NotFound {
        AsnResult::NotFound
    } else {
        AsnResult::Pending
    }
}

/// A settled source never changes again.
pub open spec fn settled_monotone(a: AsnFinder, b: AsnFinder) -> bool {
    &&& a.ip == b.ip
    &&& (a.iana matches SourceState::Settled(x) ==> b.iana == SourceState::Settled(x))
    &&& (a.radb matches SourceState::Settled(x) ==> b.radb == SourceState::Settled(x))
    &&& (a.cymru matches SourceState::Settled(x) ==> b.cymru == SourceState::Settled(x))
}

/// What one read does to a source: keep reading more lines now, wait for
/// more data later, settle with a conclusion, or follow a redirect to
/// another server.
pub enum SourceReadStep {
    KeepReading,
    Wait,
    Settle(Option<Asn>),
    FollowRedirect(Vec<u8>),
}

/// The per-read decision of a normal WHOIS source: a line feeds the parser
/// (an `OriginAS` line settles at once); no data yet leaves the source
/// waiting, alive and unchanged; end of stream concludes from the stored
/// fields; a hard read error settles the source as knowing nothing.
pub fn normal_read_step(parser: &mut NormalParser, read: &WhoisRead) -> (r: SourceReadStep)
    ensures
        match read {
            WhoisRead::Line(l) => match r {
                SourceReadStep::Settle(Some(a)) => normal_line_effect(
                    *old(parser),
                    *final(parser),
                    vstd::utf8::encode_utf8(l@),
                    Some(a),
                ),
                SourceReadStep::KeepReading => normal_line_effect(
                    *old(parser),
                    *final(parser),
                    vstd::utf8::encode_utf8(l@),
                    None,
                ),
                _ => false,
            },
            WhoisRead::NoData => r == SourceReadStep::Wait && *final(parser) == *old(parser),
            WhoisRead::Eof => *final(parser) == *old(parser) && (match r {
                SourceReadStep::Settle(Some(a)) => normal_eof_effect(
                    *old(parser),
                    EofOutcome::Found(a),
                ),
                SourceReadStep::FollowRedirect(srv) => normal_eof_effect(
                    *old(parser),
                    EofOutcome::Redirect(srv),
                ),
                SourceReadStep::Settle(None) => normal_eof_effect(
                    *old(parser),
                    EofOutcome::NotFound,
                ),
                _ => false,
            }),
            WhoisRead::Failed => r == SourceReadStep::Settle(None::<Asn>) && *final(parser)
                == *old(parser),
        },
{
    match read {
        WhoisRead::Line(l) => match parser.on_line(l.as_str()) {
            Some(a) => SourceReadStep::Settle(Some(a)),
            None => SourceReadStep::KeepReading,
        },
        WhoisRead::NoData => SourceReadStep::Wait,
        WhoisRead::Eof => match parser.on_eof() {
            EofOutcome::Found(a) => SourceReadStep::Settle(Some(a)),
            EofOutcome::Redirect(srv) => SourceReadStep::FollowRedirect(srv),
            EofOutcome::NotFound => SourceReadStep::Settle(None),
        },
        WhoisRead::Failed => SourceReadStep::Settle(None),
    }
}

/// The per-read decision of the Cymru source: the first pipe-delimited
/// field of a line settles when it parses as an ASN; no data yet leaves the
/// source waiting; end of stream or a hard error settles it as knowing
/// nothing.
pub fn cymru_read_step(read: &WhoisRead) -> (r: SourceReadStep)
    ensures
        match read {
            WhoisRead::Line(l) => r == (match cymru_line_spec(vstd::utf8::encode_utf8(l@)) {
                Some(a) => SourceReadStep::Settle(Some(a)),
                None => SourceReadStep::KeepReading,
            }),
            WhoisRead::NoData => r == SourceReadStep::Wait,
            WhoisRead::Eof => r == SourceReadStep::Settle(None::<Asn>),
            WhoisRead::Failed => r == SourceReadStep::Settle(None::<Asn>),
        },
{
    match read {
        WhoisRead::Line(l) => match cymru_line(l.as_str()) {
            Some(a) => SourceReadStep::Settle(Some(a)),
            None => SourceReadStep::KeepReading,
        },
        WhoisRead::NoData => SourceReadStep::Wait,
        WhoisRead::Eof => SourceReadStep::Settle(None),
        WhoisRead::Failed => SourceReadStep::Settle(None),
    }
}

fn poll_normal_source<S: WhoisSockets>(
    handle0: usize,
    parser0: NormalParser,
    ip: &IpAddress,
    socks: &mut S,
) -> (r: SourceState)
    ensures
        r is RunningNormal || r is Settled,
{
    let mut handle = handle0;
    let mut parser = parser0;
    let mut budget: usize = 64;
    loop
        invariant
            budget <= 64,
        decreases budget,
    {
        if budget == 0 {
            return SourceState::RunningNormal { handle, parser };
        }
        budget = budget - 1;
        let read = socks.read_line(handle);
        match normal_read_step(&mut parser, &read) {
            SourceReadStep::KeepReading => {},
            SourceReadStep::Wait => {
                return SourceState::RunningNormal { handle, parser };
            },
            SourceReadStep::Settle(conclusion) => {
                return SourceState::Settled(conclusion);
            },
            SourceReadStep::FollowRedirect(srv) => {
                match socks.connect(ip, srv.as_slice()) {
                    Some(h) => {
                        handle = h;
                        parser = NormalParser::new();
                    },
                    None => {
                        return SourceState::Settled(None);
                    },
                }
            },
        }
    }
}

fn poll_cymru_source<S: WhoisSockets>(handle: usize, socks: &mut S) -> (r: SourceState)
    ensures
        r is RunningCymru || r is Settled,
{
    let mut budget: usize = 64;
    loop
        invariant
            budget <= 64,
        decreases budget,
    {
        if budget == 0 {
            return SourceState::RunningCymru { handle };
        }
        budget = budget - 1;
        let read = socks.read_line(handle);
        match cymru_read_step(&read) {
            SourceReadStep::KeepReading => {},
            SourceReadStep::Wait => {
                return SourceState::RunningCymru { handle };
            },
            SourceReadStep::Settle(conclusion) => {
                return SourceState::Settled(conclusion);
            },
            SourceReadStep::FollowRedirect(_) => {
                return SourceState::Settled(None);
            },
        }
    }
}

fn poll_source<S: WhoisSockets>(st: SourceState, ip: &IpAddress, socks: &mut S) -> (r:
    SourceState)
    ensures
        st matches SourceState::Settled(x) ==> r == SourceState::Settled(x),
{
    match st {
        SourceState::Settled(x) => SourceState::Settled(x),
        SourceState::RunningNormal { handle, parser } => poll_normal_source(
            handle,
            parser,
            ip,
            socks,
        ),
        SourceState::RunningCymru { handle } => poll_cymru_source(handle, socks),
    }
}

/// A just-constructed normal source: reading with nothing stored yet, or
/// settled as knowing nothing because its connection failed.
pub open spec fn fresh_normal_source(s: SourceState) -> bool {
    match s {
        SourceState::RunningNormal { handle: _, parser } => parser.line_origin is None
            && parser.line_refer is None && parser.line_whois is None,
        SourceState::Settled(conclusion) => conclusion is None,
        _ => false,
    }
}

/// A just-constructed Cymru source: reading, or settled as knowing nothing
/// because its connection failed.
pub open spec fn fresh_cymru_source(s: SourceState) -> bool {
    match s {
        SourceState::RunningCymru { .. } => true,
        SourceState::Settled(conclusion) => conclusion is None,
        _ => false,
    }
}

impl AsnFinder {
    /// Starts a lookup for `ip` by connecting to the three WHOIS servers.
    /// A server that cannot be reached is settled as knowing nothing; the
    /// lookup itself always succeeds.
    pub fn lookup<S: WhoisSockets>(ip: IpAddress, socks: &mut S) -> (f: AsnFinder)
        ensures
            f.ip == ip,
            fresh_normal_source(f.iana),
            fresh_normal_source(f.radb),
            fresh_cymru_source(f.cymru),
    {
        let iana = match socks.connect(&ip, "whois.iana.org".as_bytes()) {
            Some(h) => SourceState::RunningNormal { handle: h, parser: NormalParser::new() },
            None => SourceState::Settled(None),
        };
        let radb = match socks.connect(&ip, "whois.radb.net".as_bytes()) {
            Some(h) => SourceState::RunningNormal { handle: h, parser: NormalParser::new() },
            None => SourceState::Settled(None),
        };
        let cymru = match socks.connect(&ip, "whois.cymru.com".as_bytes()) {
            Some(h) => SourceState::RunningCymru { handle: h },
            None => SourceState::Settled(None),
        };
        AsnFinder { ip, iana, radb, cymru }
    }

    /// Advances every still-reading source by the data now available and
    /// aggregates: the first found ASN wins (IANA, RADB, Cymru order);
    /// `NotFound` only once every source has settled without an answer.
    pub fn poll<S: WhoisSockets>(&mut self, socks: &mut S) -> (r: AsnResult)
        ensures
            settled_monotone(*old(self), *final(self)),
            r == aggregate_spec(*final(self)),
    {
        let ip = self.ip;
        let mut tmp = SourceState::Settled(None);
        core::mem::swap(&mut self.iana, &mut tmp);
        let new_iana = poll_source(tmp, &ip, socks);
        self.iana = new_iana;
        let mut tmp = SourceState::Settled(None);
        core::mem::swap(&mut self.radb, &mut tmp);
        let new_radb = poll_source(tmp, &ip, socks);
        self.radb = new_radb;
        let mut tmp = SourceState::Settled(None);
        core::mem::swap(&mut self.cymru, &mut tmp);
        let new_cymru = poll_source(tmp, &ip, socks);
        self.cymru = new_cymru;
        let r1 = source_result_exec(&self.iana);
        let r2 = source_result_exec(&self.radb);
        let r3 = source_result_exec(&self.cymru);
        if let AsnResult::Found(a) = r1 {
            AsnResult::Found(a)
        } else if let AsnResult::Found(a) = r2 {
            AsnResult::Found(a)
        } else if let AsnResult::Found(a) = r3 {
            AsnResult::Found(a)
        } else if matches!(r1, AsnResult::NotFound) && matches!(r2, AsnResult::NotFound)
            && matches!(r3, AsnResult::NotFound) {
            AsnResult::NotFound
        } else {
            AsnResult::Pending
        }
    }
}

fn source_result_exec(s: &SourceState) -> (r: AsnResult)
    ensures
        r == source_result(*s),
{
    match s {
        SourceState::Settled(Some(a)) => AsnResult::Found(*a),
        SourceState::Settled(None) => AsnResult::NotFound,
        _ => AsnResult::Pending,
    }
}

} // verus!
