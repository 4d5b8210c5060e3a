use prelude_power_controller::discovery::{
    classify, default_candidates, has_keyword, keep_listening, verdict, Discovery, DiscoveryResult,
    DiscoveryStep, Verdict,
};

#[test]
fn empty_response_is_no_data() {
    assert_eq!(verdict(&[]), Verdict::Empty);
    assert_eq!(classify(&[]), DiscoveryResult::NoData);
}

#[test]
fn keyword_response_is_success() {
    let r = classify(b"Fw0Version: 1.2.3\r\n");
    assert_eq!(r, DiscoveryResult::Success("Fw0Version: 1.2.3\r\n".to_string()));
}

#[test]
fn keyword_inside_noise_is_success() {
    let bytes = [0x00u8, 0x01, 0x43, 0x77, 0x3A, 0xFF, 0x02];
    assert!(has_keyword(&bytes));
    assert_eq!(verdict(&bytes), Verdict::Readable);
}

#[test]
fn keyword_needs_its_colon() {
    assert!(!has_keyword(b"xxCwyy"));
    assert!(has_keyword(b"xxCw:yy"));
    assert!(has_keyword(b"PROD SN: 42"));
    assert!(!has_keyword(b"hello"));
}

#[test]
fn printable_text_without_keyword_is_success() {
    assert_eq!(
        classify(b"hello world\r\n"),
        DiscoveryResult::Success("hello world\r\n".to_string())
    );
}

#[test]
fn printable_ratio_must_exceed_seven_tenths() {
    let seven = [b'a', b'b', b'c', b'd', b'e', b'f', b'g', 0x00, 0x01, 0x02];
    assert_eq!(verdict(&seven), Verdict::Unreadable);
    let eight = [b'a', b'b', b'c', b'd', b'e', b'f', b'g', b'h', 0x01, 0x02];
    assert_eq!(verdict(&eight), Verdict::Readable);
}

#[test]
fn noise_is_partial_data_with_sample() {
    let noise = [0x00u8, 0x80, 0x81, 0x02];
    match classify(&noise) {
        DiscoveryResult::PartialData(n, sample) => {
            assert_eq!(n, 4);
            assert_eq!(sample, String::from_utf8_lossy(&noise).into_owned());
            assert!(sample.contains('\u{FFFD}'));
        }
        other => panic!("unexpected {:?}", other),
    }
}

#[test]
fn long_noise_sample_keeps_thirty_bytes() {
    let noise: Vec<u8> = (0..40).map(|i| if i % 2 == 0 { 0x00 } else { 0x01 }).collect();
    match classify(&noise) {
        DiscoveryResult::PartialData(n, sample) => {
            assert_eq!(n, 40);
            assert_eq!(sample.chars().count(), 30);
        }
        other => panic!("unexpected {:?}", other),
    }
}

#[test]
fn invalid_utf8_is_decoded_lossily() {
    let r = classify(&[0x46, 0x77, 0xFF]);
    assert_eq!(r, DiscoveryResult::Success("Fw\u{FFFD}".to_string()));
}

#[test]
fn default_candidate_order() {
    assert_eq!(
        default_candidates(),
        vec![9600, 115200, 19200, 38400, 57600, 14400, 28800, 4800, 2400, 1200, 230400, 460800, 921600]
    );
}

fn run_against(d: &mut Discovery, responding_rate: Option<u32>) -> DiscoveryStep {
    let mut step = d.next_step();
    while let DiscoveryStep::Probe(rate) = step {
        let reply = if Some(rate) == responding_rate {
            b"Model: X1\r\nFw0Version: 2.0\r\n".to_vec()
        } else {
            Vec::new()
        };
        step = d.record(Ok(reply));
    }
    step
}

#[test]
fn discovery_stops_at_responding_rate() {
    let mut d = Discovery::new(default_candidates());
    let end = run_against(&mut d, Some(38400));
    assert_eq!(end, DiscoveryStep::Found(38400));
    assert_eq!(d.results().len(), 4);
    for r in &d.results()[..3] {
        assert_eq!(*r, DiscoveryResult::NoData);
    }
    assert!(matches!(d.results()[3], DiscoveryResult::Success(_)));
}

#[test]
fn discovery_exhausts_all_candidates() {
    let mut d = Discovery::new(default_candidates());
    let end = run_against(&mut d, None);
    assert_eq!(end, DiscoveryStep::Exhausted);
    assert_eq!(d.results().len(), 13);
    assert!(d.results().iter().all(|r| *r == DiscoveryResult::NoData));
}

#[test]
fn discovery_records_open_errors_and_goes_on() {
    let mut d = Discovery::new(vec![9600, 115200]);
    assert_eq!(d.next_step(), DiscoveryStep::Probe(9600));
    let step = d.record(Err("busy".to_string()));
    assert_eq!(step, DiscoveryStep::Probe(115200));
    assert_eq!(d.results()[0], DiscoveryResult::OpenError("busy".to_string()));
    let step = d.record(Ok(vec![0x00, 0x00, 0x00]));
    assert_eq!(step, DiscoveryStep::Exhausted);
    assert!(matches!(d.results()[1], DiscoveryResult::PartialData(3, _)));
}

#[test]
fn discovery_over_no_candidates_is_exhausted() {
    let d = Discovery::new(Vec::new());
    assert_eq!(d.next_step(), DiscoveryStep::Exhausted);
    assert!(d.candidates().is_empty());
}

#[test]
fn listening_stops_on_enough_bytes_window_or_quiet() {
    assert!(keep_listening(0, false, 0));
    assert!(keep_listening(50, false, 100));
    assert!(!keep_listening(51, false, 100));
    assert!(keep_listening(10, true, 400));
    assert!(!keep_listening(10, true, 600));
    assert!(keep_listening(0, true, 600));
    assert!(keep_listening(0, true, 2999));
    assert!(!keep_listening(0, false, 3000));
}

#[test]
fn ratio_counts_decoded_length() {
    let bytes = [b'a', b'b', b'c', b'd', b'e', b'f', b'g', b'h', 0xFF, 0xFF];
    assert_eq!(verdict(&bytes), Verdict::Unreadable);
    match classify(&bytes) {
        DiscoveryResult::PartialData(n, sample) => {
            assert_eq!(n, 10);
            assert_eq!(sample, "abcdefgh\u{FFFD}\u{FFFD}");
        }
        other => panic!("unexpected {:?}", other),
    }
}

#[test]
fn unicode_white_space_counts_as_printable() {
    let text = "ab\u{3000}";
    assert_eq!(verdict(text.as_bytes()), Verdict::Unreadable);
    let text = "abcdefgh\u{A0}";
    assert_eq!(verdict(text.as_bytes()), Verdict::Readable);
}

#[test]
fn sample_counts_characters_not_bytes() {
    let bytes: Vec<u8> = "\u{E9}".repeat(40).into_bytes();
    match classify(&bytes) {
        DiscoveryResult::PartialData(n, sample) => {
            assert_eq!(n, 80);
            assert_eq!(sample, "\u{E9}".repeat(30));
        }
        other => panic!("unexpected {:?}", other),
    }
}
