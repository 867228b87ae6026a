use ktr::ip::IpAddress;
use ktr::metadata::Asn;
use ktr::whois::{cymru_line, cymru_read_step, normal_read_step, AsnFinder, AsnResult, EofOutcome, NormalParser, SourceReadStep, WhoisRead, WhoisSockets};

struct FakeWhois {
    scripts: Vec<(String, Vec<WhoisRead>)>,
    handles: Vec<Vec<WhoisRead>>,
    connects: Vec<String>,
}

impl FakeWhois {
    fn new(scripts: Vec<(&str, Vec<WhoisRead>)>) -> FakeWhois {
        FakeWhois {
            scripts: scripts.into_iter().map(|(n, r)| (n.to_string(), r)).collect(),
            handles: Vec::new(),
            connects: Vec::new(),
        }
    }
}

impl WhoisSockets for FakeWhois {
    fn connect(&mut self, _ip: &IpAddress, server: &[u8]) -> Option<usize> {
        let name = String::from_utf8_lossy(server).to_string();
        self.connects.push(name.clone());
        if let Some(pos) = self.scripts.iter().position(|(n, _)| *n == name) {
            let (_, reads) = self.scripts.remove(pos);
            self.handles.push(reads);
            Some(self.handles.len() - 1)
        } else {
            None
        }
    }

    fn read_line(&mut self, handle: usize) -> WhoisRead {
        if handle < self.handles.len() && !self.handles[handle].is_empty() {
            self.handles[handle].remove(0)
        } else {
            WhoisRead::NoData
        }
    }
}

fn line(s: &str) -> WhoisRead {
    WhoisRead::Line(s.to_string())
}

#[test]
fn normal_parser_originas_answers_at_once() {
    let mut p = NormalParser::new();
    assert_eq!(p.on_line("OriginAS: AS64503"), Some(Asn(64503)));
}

#[test]
fn normal_parser_origin_waits_for_eof() {
    let mut p = NormalParser::new();
    assert_eq!(p.on_line("origin: AS64501"), None);
    assert_eq!(p.on_eof(), EofOutcome::Found(Asn(64501)));
}

#[test]
fn normal_parser_keys_are_case_insensitive_and_trimmed() {
    let mut p = NormalParser::new();
    assert_eq!(p.on_line("  ORIGIN  :  64007  "), None);
    assert_eq!(p.on_eof(), EofOutcome::Found(Asn(64007)));
}

#[test]
fn normal_parser_prefers_refer_over_whois() {
    let mut p = NormalParser::new();
    assert_eq!(p.on_line("whois: whois.arin.net"), None);
    assert_eq!(p.on_line("refer: whois.example.net"), None);
    match p.on_eof() {
        EofOutcome::Redirect(server) => assert_eq!(server, b"whois.example.net".to_vec()),
        other => panic!("expected a redirect, got {:?}", other),
    }
}

#[test]
fn normal_parser_without_answer_is_not_found() {
    let mut p = NormalParser::new();
    assert_eq!(p.on_line("remarks: nothing to see"), None);
    assert_eq!(p.on_line("no colon here"), None);
    assert_eq!(p.on_eof(), EofOutcome::NotFound);
}

#[test]
fn cymru_line_reads_first_pipe_field() {
    assert_eq!(cymru_line("64502   | 9.9.9.9 | US | example"), Some(Asn(64502)));
    assert_eq!(cymru_line("AS      | IP      | CC"), None);
    assert_eq!(cymru_line("no pipe at all"), None);
}

#[test]
fn whois_race_first_definitive_answer_wins() {
    // IANA would answer `origin: AS64501` only on close; Cymru answers
    // mid-stream, so the race returns the Cymru ASN.
    let mut socks = FakeWhois::new(vec![
        ("whois.iana.org", vec![line("origin: AS64501")]),
        ("whois.cymru.com", vec![line("64502 | 1.2.3.4 | US | example")]),
    ]);
    let ip = IpAddress::V4(u32::from_be_bytes([1, 2, 3, 4]));
    let mut finder = AsnFinder::lookup(ip, &mut socks);
    assert_eq!(finder.poll(&mut socks), AsnResult::Found(Asn(64502)));
}

#[test]
fn whois_redirect_is_followed() {
    let mut socks = FakeWhois::new(vec![
        ("whois.iana.org", vec![line("refer: whois.example.net"), WhoisRead::Eof]),
        ("whois.example.net", vec![line("OriginAS: AS64503")]),
    ]);
    let ip = IpAddress::V4(u32::from_be_bytes([5, 6, 7, 8]));
    let mut finder = AsnFinder::lookup(ip, &mut socks);
    assert_eq!(finder.poll(&mut socks), AsnResult::Found(Asn(64503)));
    assert!(socks.connects.contains(&"whois.example.net".to_string()));
}

#[test]
fn whois_all_sources_exhausted_is_not_found() {
    let mut socks = FakeWhois::new(vec![
        ("whois.iana.org", vec![WhoisRead::Eof]),
        ("whois.radb.net", vec![WhoisRead::Eof]),
        ("whois.cymru.com", vec![WhoisRead::Eof]),
    ]);
    let ip = IpAddress::V4(u32::from_be_bytes([5, 6, 7, 8]));
    let mut finder = AsnFinder::lookup(ip, &mut socks);
    assert_eq!(finder.poll(&mut socks), AsnResult::NotFound);
}

#[test]
fn whois_no_connections_reports_not_found_on_first_poll() {
    let mut socks = FakeWhois::new(vec![]);
    let ip = IpAddress::V4(u32::from_be_bytes([5, 6, 7, 8]));
    let mut finder = AsnFinder::lookup(ip, &mut socks);
    assert_eq!(finder.poll(&mut socks), AsnResult::NotFound);
}

#[test]
fn whois_waiting_sources_stay_pending() {
    let mut socks = FakeWhois::new(vec![
        ("whois.iana.org", vec![line("remarks: still thinking")]),
        ("whois.radb.net", vec![WhoisRead::Eof]),
        ("whois.cymru.com", vec![WhoisRead::Eof]),
    ]);
    let ip = IpAddress::V4(u32::from_be_bytes([5, 6, 7, 8]));
    let mut finder = AsnFinder::lookup(ip, &mut socks);
    assert_eq!(finder.poll(&mut socks), AsnResult::Pending);
}

#[test]
fn whois_hard_read_error_degrades_the_source() {
    let mut socks = FakeWhois::new(vec![
        ("whois.iana.org", vec![WhoisRead::Failed]),
        ("whois.radb.net", vec![WhoisRead::Failed]),
        ("whois.cymru.com", vec![WhoisRead::Failed]),
    ]);
    let ip = IpAddress::V4(u32::from_be_bytes([5, 6, 7, 8]));
    let mut finder = AsnFinder::lookup(ip, &mut socks);
    assert_eq!(finder.poll(&mut socks), AsnResult::NotFound);
}

#[test]
fn read_steps_decide_per_read() {
    let mut p = NormalParser::new();
    assert!(matches!(normal_read_step(&mut p, &WhoisRead::NoData), SourceReadStep::Wait));
    assert!(matches!(
        normal_read_step(&mut p, &WhoisRead::Line("OriginAS: AS7".to_string())),
        SourceReadStep::Settle(Some(Asn(7)))
    ));
    let mut q = NormalParser::new();
    assert!(matches!(
        normal_read_step(&mut q, &WhoisRead::Eof),
        SourceReadStep::Settle(None)
    ));
    let mut z = NormalParser::new();
    assert!(matches!(
        normal_read_step(&mut z, &WhoisRead::Failed),
        SourceReadStep::Settle(None)
    ));
    assert!(matches!(
        cymru_read_step(&WhoisRead::Line("64496 | 9.9.9.9".to_string())),
        SourceReadStep::Settle(Some(Asn(64496)))
    ));
    assert!(matches!(cymru_read_step(&WhoisRead::NoData), SourceReadStep::Wait));
    assert!(matches!(cymru_read_step(&WhoisRead::Eof), SourceReadStep::Settle(None)));
}
