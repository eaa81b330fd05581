use vtparse::{CollectingVTActor, VTAction, VTActor, VTParser};

fn parse_as_vec(bytes: &[u8]) -> Vec<VTAction> {
    let mut parser = VTParser::new();
    let mut actor = CollectingVTActor::default();
    parser.parse(bytes, &mut actor);
    actor.into_vec()
}

fn csi(params: Vec<i64>, intermediates: &[u8], ignored: bool, byte: u8) -> VTAction {
    VTAction::CsiDispatch {
        params,
        intermediates: intermediates.to_vec(),
        ignored_excess_intermediates: ignored,
        byte,
    }
}

#[test]
fn input_in_pieces_parses_as_whole() {
    let whole = parse_as_vec(b"a\x1b[32mb\xe2\x82\xac\x1b]0;t\x07");
    let mut parser = VTParser::new();
    let mut actor = CollectingVTActor::default();
    parser.parse(b"a\x1b[3", &mut actor);
    parser.parse(b"2mb\xe2", &mut actor);
    parser.parse(b"\x82", &mut actor);
    parser.parse(b"\xac\x1b]0", &mut actor);
    parser.parse(b";t\x07", &mut actor);
    assert_eq!(actor.into_vec(), whole);
    assert_eq!(
        whole,
        vec![
            VTAction::Print('a'),
            csi(vec![32], b"", false, b'm'),
            VTAction::Print('b'),
            VTAction::Print('€'),
            VTAction::OscDispatch(vec![b"0".to_vec(), b"t".to_vec()]),
        ]
    );
}

#[test]
fn parse_byte_by_byte_matches_parse() {
    let input = b"x\x1bP1;2$qdata\x1b\\y";
    let mut parser = VTParser::new();
    let mut actor = CollectingVTActor::default();
    for b in input.iter() {
        parser.parse_byte(*b, &mut actor);
    }
    assert_eq!(actor.into_vec(), parse_as_vec(input));
}

#[test]
fn ground_prints_printable_bytes() {
    assert_eq!(
        parse_as_vec(b" ~\x7f"),
        vec![VTAction::Print(' '), VTAction::Print('~'), VTAction::Print('\x7f')]
    );
}

#[test]
fn ground_executes_c0_controls() {
    assert_eq!(
        parse_as_vec(b"\x00\x08\x0a\x0d\x1f"),
        vec![
            VTAction::ExecuteC0orC1(0x00),
            VTAction::ExecuteC0orC1(0x08),
            VTAction::ExecuteC0orC1(0x0a),
            VTAction::ExecuteC0orC1(0x0d),
            VTAction::ExecuteC0orC1(0x1f),
        ]
    );
}

#[test]
fn c0_controls_execute_inside_csi() {
    assert_eq!(
        parse_as_vec(b"\x1b[1\x0a2m"),
        vec![VTAction::ExecuteC0orC1(0x0a), csi(vec![12], b"", false, b'm')]
    );
}

#[test]
fn esc_breaks_out_of_csi() {
    assert_eq!(
        parse_as_vec(b"\x1b[12;\x1b7"),
        vec![VTAction::EscDispatch {
            params: vec![],
            intermediates: vec![],
            ignored_excess_intermediates: false,
            byte: b'7',
        }]
    );
}

#[test]
fn can_and_sub_abort_a_sequence() {
    assert_eq!(
        parse_as_vec(b"\x1b[12\x18a\x1b(\x1ab"),
        vec![
            VTAction::ExecuteC0orC1(0x18),
            VTAction::Print('a'),
            VTAction::ExecuteC0orC1(0x1a),
            VTAction::Print('b'),
        ]
    );
}

#[test]
fn c1_csi_introducer() {
    assert_eq!(parse_as_vec(b"\x9b5A"), vec![csi(vec![5], b"", false, b'A')]);
}

#[test]
fn private_marker_is_collected() {
    assert_eq!(parse_as_vec(b"\x1b[?25h"), vec![csi(vec![25], b"?", false, b'h')]);
}

#[test]
fn colon_in_csi_ignores_the_sequence() {
    assert_eq!(parse_as_vec(b"\x1b[1:2mz"), vec![VTAction::Print('z')]);
}

#[test]
fn parameter_saturates() {
    assert_eq!(
        parse_as_vec(b"\x1b[99999999999999999999999;7m"),
        vec![csi(vec![i64::MAX, 7], b"", false, b'm')]
    );
}

#[test]
fn seventeenth_parameter_is_dropped() {
    assert_eq!(
        parse_as_vec(b"\x1b[1;2;3;4;5;6;7;8;9;10;11;12;13;14;15;16;17;18m"),
        vec![csi(
            vec![1, 2, 3, 4, 5, 6, 7, 8, 9, 10, 11, 12, 13, 14, 15, 16],
            b"",
            false,
            b'm'
        )]
    );
}

#[test]
fn omitted_last_parameter_is_zero() {
    // A `;` ends the parameter before it and starts the next one, which is zero
    // when it is omitted; with no parameter bytes at all there are no parameters.
    assert_eq!(parse_as_vec(b"\x1b[5;m"), vec![csi(vec![5, 0], b"", false, b'm')]);
    assert_eq!(parse_as_vec(b"\x1b[1;m"), vec![csi(vec![1, 0], b"", false, b'm')]);
    assert_eq!(parse_as_vec(b"\x1b[m"), vec![csi(vec![], b"", false, b'm')]);
}

#[test]
fn esc_intermediates() {
    assert_eq!(
        parse_as_vec(b"\x1b(B\x1b #$%8"),
        vec![
            VTAction::EscDispatch {
                params: vec![],
                intermediates: b"(".to_vec(),
                ignored_excess_intermediates: false,
                byte: b'B',
            },
            VTAction::EscDispatch {
                params: vec![],
                intermediates: b" #".to_vec(),
                ignored_excess_intermediates: true,
                byte: b'8',
            },
        ]
    );
}

#[test]
fn dcs_sequence() {
    assert_eq!(
        parse_as_vec(b"\x1bP1;2$qd\x07a\x1b\\"),
        vec![
            VTAction::DcsHook {
                params: vec![1, 2],
                intermediates: b"$".to_vec(),
                ignored_excess_intermediates: false,
            },
            VTAction::DcsPut(b'd'),
            VTAction::DcsPut(0x07),
            VTAction::DcsPut(b'a'),
            VTAction::DcsUnhook,
            VTAction::EscDispatch {
                params: vec![],
                intermediates: vec![],
                ignored_excess_intermediates: false,
                byte: b'\\',
            },
        ]
    );
}

#[test]
fn dcs_ended_by_c1_st() {
    assert_eq!(
        parse_as_vec(b"\x90qx\x9cz"),
        vec![
            VTAction::DcsHook {
                params: vec![],
                intermediates: vec![],
                ignored_excess_intermediates: false,
            },
            VTAction::DcsPut(b'x'),
            VTAction::DcsUnhook,
            VTAction::Print('z'),
        ]
    );
}

#[test]
fn sos_pm_apc_strings_are_ignored() {
    assert_eq!(parse_as_vec(b"\x1bXabc\x9c\x1b^d\x9c\x1b_e\x9cf"), vec![VTAction::Print('f')]);
}

#[test]
fn osc_empty_and_trailing_parameters() {
    assert_eq!(
        parse_as_vec(b"\x1b]2;;x;\x9c"),
        vec![VTAction::OscDispatch(vec![
            b"2".to_vec(),
            b"".to_vec(),
            b"x".to_vec(),
            b"".to_vec(),
        ])]
    );
}

#[test]
fn osc_ended_by_can() {
    assert_eq!(
        parse_as_vec(b"\x1b]0;ab\x18c"),
        vec![
            VTAction::OscDispatch(vec![b"0".to_vec(), b"ab".to_vec()]),
            VTAction::ExecuteC0orC1(0x18),
            VTAction::Print('c'),
        ]
    );
}

#[test]
fn osc_multibyte_characters() {
    assert_eq!(
        parse_as_vec("\x1b]0;€😀\x07".as_bytes()),
        vec![VTAction::OscDispatch(vec![
            b"0".to_vec(),
            "€😀".as_bytes().to_vec()
        ])]
    );
}

#[test]
fn print_multibyte_characters() {
    assert_eq!(
        parse_as_vec("é€😀".as_bytes()),
        vec![VTAction::Print('é'), VTAction::Print('€'), VTAction::Print('😀')]
    );
}

#[test]
fn invalid_utf8_is_replaced() {
    // The byte that makes the sequence invalid is taken by the decoder.
    assert_eq!(parse_as_vec(b"\xc3(z"), vec![VTAction::Print('\u{FFFD}'), VTAction::Print('z')]);
    assert_eq!(
        parse_as_vec(b"\xe0\x80z"),
        vec![VTAction::Print('\u{FFFD}'), VTAction::Print('z')]
    );
}

#[test]
fn invalid_utf8_in_osc_is_replaced() {
    assert_eq!(
        parse_as_vec(b"\x1b]0;\xc3!\x07"),
        vec![VTAction::OscDispatch(vec![b"0".to_vec(), "\u{FFFD}".as_bytes().to_vec()])]
    );
}

#[test]
fn stray_high_bytes_are_dropped_in_ground() {
    assert_eq!(parse_as_vec(b"\xa0\xc1\xff!"), vec![VTAction::Print('!')]);
}

#[test]
fn osc_leading_semicolon_ends_an_empty_parameter() {
    assert_eq!(
        parse_as_vec(b"a\x1b];x\x07"),
        vec![
            VTAction::Print('a'),
            VTAction::OscDispatch(vec![b"".to_vec(), b"x".to_vec()]),
        ]
    );
    assert_eq!(
        parse_as_vec(b"\x1b];\x07"),
        vec![VTAction::OscDispatch(vec![b"".to_vec(), b"".to_vec()])]
    );
}

#[test]
fn dcs_omitted_last_parameter_is_zero() {
    assert_eq!(
        parse_as_vec(b"\x1bP2;q"),
        vec![VTAction::DcsHook {
            params: vec![2, 0],
            intermediates: vec![],
            ignored_excess_intermediates: false,
        }]
    );
}

#[test]
fn collecting_actor_iterates_in_order() {
    let mut parser = VTParser::new();
    let mut actor = CollectingVTActor::default();
    parser.parse(b"ab", &mut actor);
    let actions: Vec<VTAction> = actor.into_iter().collect();
    assert_eq!(actions, vec![VTAction::Print('a'), VTAction::Print('b')]);
}

struct Counter {
    prints: usize,
    dispatches: usize,
}

impl VTActor for Counter {
    fn print(&mut self, _b: char) {
        self.prints += 1;
    }
    fn execute_c0_or_c1(&mut self, _control: u8) {}
    fn dcs_hook(&mut self, _params: &[i64], _intermediates: &[u8], _ignored: bool) {}
    fn dcs_put(&mut self, _byte: u8) {}
    fn dcs_unhook(&mut self) {}
    fn esc_dispatch(&mut self, _params: &[i64], _intermediates: &[u8], _ignored: bool, _byte: u8) {
        self.dispatches += 1;
    }
    fn csi_dispatch(&mut self, _params: &[i64], _intermediates: &[u8], _ignored: bool, _byte: u8) {
        self.dispatches += 1;
    }
    fn osc_dispatch(&mut self, _params: &[&[u8]]) {
        self.dispatches += 1;
    }
}

#[test]
fn works_with_a_trait_object() {
    let mut parser = VTParser::new();
    let mut counter = Counter { prints: 0, dispatches: 0 };
    {
        let actor: &mut dyn VTActor = &mut counter;
        parser.parse(b"hi\x1b[1mthere\x1b7\x1b]0;t\x07", actor);
    }
    assert_eq!(counter.prints, 7);
    assert_eq!(counter.dispatches, 3);
}

#[test]
fn empty_input_does_nothing() {
    assert_eq!(parse_as_vec(b""), vec![]);
}

#[test]
fn multi_digit_parameter_is_decimal() {
    assert_eq!(parse_as_vec(b"\x1b[1234H"), vec![csi(vec![1234], b"", false, b'H')]);
    assert_eq!(parse_as_vec(b"\x1b[007m"), vec![csi(vec![7], b"", false, b'm')]);
}

#[test]
fn osc_semicolons_split_parameters() {
    assert_eq!(
        parse_as_vec(b"\x1b]8;id=1;http://x\x07"),
        vec![VTAction::OscDispatch(vec![
            b"8".to_vec(),
            b"id=1".to_vec(),
            b"http://x".to_vec(),
        ])]
    );
}

#[test]
fn esc_inside_escape_does_not_restart() {
    // ESC taken in the escape state stays there without clearing.
    assert_eq!(
        parse_as_vec(b"\x1b(\x1b\x1bB"),
        vec![VTAction::EscDispatch {
            params: vec![],
            intermediates: vec![],
            ignored_excess_intermediates: false,
            byte: b'B',
        }]
    );
}

#[test]
fn csi_parameters_are_semicolon_separated_decimals() {
    assert_eq!(
        parse_as_vec(b"\x1b[1;;3;m"),
        vec![csi(vec![1, 0, 3, 0], b"", false, b'm')]
    );
    assert_eq!(
        parse_as_vec(b"\x1b[;;m"),
        vec![csi(vec![0, 0, 0], b"", false, b'm')]
    );
}

#[test]
fn new_sequence_forgets_earlier_parameters() {
    assert_eq!(
        parse_as_vec(b"\x1b[12;3 !\x1b[m"),
        vec![csi(vec![], b"", false, b'm')]
    );
}

#[test]
fn csi_parameters_and_intermediates_together() {
    assert_eq!(
        parse_as_vec(b"\x1b[4;\"#$q"),
        vec![csi(vec![4, 0], b"\"#", true, b'q')]
    );
}

#[test]
fn csi_private_marker_counts_as_intermediate() {
    assert_eq!(
        parse_as_vec(b"\x1b[?1;2$p"),
        vec![csi(vec![1, 2], b"?$", false, b'p')]
    );
    assert_eq!(
        parse_as_vec(b"\x1b[?1 !p"),
        vec![csi(vec![1], b"? ", true, b'p')]
    );
}

#[test]
fn dcs_private_marker_and_intermediates() {
    assert_eq!(
        parse_as_vec(b"\x1bP>1 !q"),
        vec![VTAction::DcsHook {
            params: vec![1],
            intermediates: b"> ".to_vec(),
            ignored_excess_intermediates: true,
        }]
    );
}
