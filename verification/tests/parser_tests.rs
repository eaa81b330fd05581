use vtparse::{CollectingVTActor, VTAction, VTParser};

fn parse_as_vec(bytes: &[u8]) -> Vec<VTAction> {
    let mut parser = VTParser::new();
    let mut actor = CollectingVTActor::default();
    parser.parse(bytes, &mut actor);
    actor.into_vec()
}

#[test]
fn test_mixed() {
    assert_eq!(
        parse_as_vec(b"yo\x07\x1b[32mwoot\x1b[0mdone"),
        vec![
            VTAction::Print('y'),
            VTAction::Print('o'),
            VTAction::ExecuteC0orC1(0x07,),
            VTAction::CsiDispatch {
                params: vec![32],
                intermediates: vec![],
                ignored_excess_intermediates: false,
                byte: b'm',
            },
            VTAction::Print('w',),
            VTAction::Print('o',),
            VTAction::Print('o',),
            VTAction::Print('t',),
            VTAction::CsiDispatch {
                params: vec![0],
                intermediates: vec![],
                ignored_excess_intermediates: false,
                byte: b'm',
            },
            VTAction::Print('d',),
            VTAction::Print('o',),
            VTAction::Print('n',),
            VTAction::Print('e',),
        ]
    );
}

#[test]
fn test_print() {
    assert_eq!(
        parse_as_vec(b"yo"),
        vec![VTAction::Print('y'), VTAction::Print('o')]
    );
}

#[test]
fn test_osc_with_c1_st() {
    assert_eq!(
        parse_as_vec(b"\x1b]0;there\x9c"),
        vec![VTAction::OscDispatch(vec![
            b"0".to_vec(),
            b"there".to_vec()
        ])]
    );
}

#[test]
fn test_osc_with_bel_st() {
    assert_eq!(
        parse_as_vec(b"\x1b]0;hello\x07"),
        vec![VTAction::OscDispatch(vec![
            b"0".to_vec(),
            b"hello".to_vec()
        ])]
    );
}

#[test]
fn test_osc_too_many_params() {
    assert_eq!(
        parse_as_vec(b"\x1b]0;1;2;3;4;5;6;7;8;9;a;b;c;d;e;f;g\x07"),
        vec![VTAction::OscDispatch(vec![
            b"0".to_vec(),
            b"1".to_vec(),
            b"2".to_vec(),
            b"3".to_vec(),
            b"4".to_vec(),
            b"5".to_vec(),
            b"6".to_vec(),
            b"7".to_vec(),
            b"8".to_vec(),
            b"9".to_vec(),
            b"a".to_vec(),
            b"b".to_vec(),
            b"c".to_vec(),
            b"d".to_vec(),
            b"e".to_vec(),
            b"f".to_vec(),
            // g is discarded
        ])]
    );
}

#[test]
fn test_osc_with_no_params() {
    assert_eq!(
        parse_as_vec(b"\x1b]\x07"),
        vec![VTAction::OscDispatch(vec![])]
    );
}

#[test]
fn test_osc_with_esc_sequence_st() {
    // This case isn't the same as the other OSC cases; even though
    // `ESC \` is the long form escape sequence for ST, the ESC on its
    // own breaks out of the OSC state and jumps into the ESC state,
    // and that leaves the `\` character to be dispatched there in
    // the calling application.
    assert_eq!(
        parse_as_vec(b"\x1b]woot\x1b\\"),
        vec![
            VTAction::OscDispatch(vec![b"woot".to_vec()]),
            VTAction::EscDispatch {
                params: vec![],
                intermediates: vec![],
                ignored_excess_intermediates: false,
                byte: b'\\'
            }
        ]
    );
}

#[test]
fn test_csi_omitted_param() {
    assert_eq!(
        parse_as_vec(b"\x1b[;1m"),
        vec![VTAction::CsiDispatch {
            // The omitted parameter defaults to 0
            params: vec![0, 1],
            intermediates: b"".to_vec(),
            ignored_excess_intermediates: false,
            byte: b'm'
        }]
    );
}

#[test]
fn test_csi_too_many_params() {
    assert_eq!(
        parse_as_vec(b"\x1b[0;1;2;3;4;5;6;7;8;9;0;1;2;3;4;51;6p"),
        vec![VTAction::CsiDispatch {
            params: vec![0, 1, 2, 3, 4, 5, 6, 7, 8, 9, 0, 1, 2, 3, 4, 51],
            intermediates: b"".to_vec(),
            ignored_excess_intermediates: false,
            byte: b'p'
        }]
    );
}

#[test]
fn test_csi_intermediates() {
    assert_eq!(
        parse_as_vec(b"\x1b[1 p"),
        vec![VTAction::CsiDispatch {
            params: vec![1],
            intermediates: b" ".to_vec(),
            ignored_excess_intermediates: false,
            byte: b'p'
        }]
    );
    assert_eq!(
        parse_as_vec(b"\x1b[1 !p"),
        vec![VTAction::CsiDispatch {
            params: vec![1],
            intermediates: b" !".to_vec(),
            ignored_excess_intermediates: false,
            byte: b'p'
        }]
    );
    assert_eq!(
        parse_as_vec(b"\x1b[1 !#p"),
        vec![VTAction::CsiDispatch {
            params: vec![1],
            // Note that the `#` was discarded
            intermediates: b" !".to_vec(),
            ignored_excess_intermediates: true,
            byte: b'p'
        }]
    );
}

#[test]
fn osc_utf8() {
    assert_eq!(
        parse_as_vec("\x1b]\u{af}\x07".as_bytes()),
        vec![VTAction::OscDispatch(vec!["\u{af}".as_bytes().to_vec()])]
    );
}

#[test]
fn print_utf8() {
    assert_eq!(
        parse_as_vec("\u{af}".as_bytes()),
        vec![VTAction::Print('\u{af}')]
    );
}
