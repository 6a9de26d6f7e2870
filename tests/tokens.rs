use std::collections::VecDeque;
use tuicore::token::{
    cleanup_capabilities, enable_capabilities, gather_ansi, map_csi, map_ss3, parse_next,
    print_token, Token, TokenKey,
};

fn queue(bytes: &[u8]) -> VecDeque<u8> {
    bytes.iter().copied().collect()
}

fn all_tokens(bytes: &[u8]) -> (Vec<Token>, VecDeque<u8>) {
    let mut q = queue(bytes);
    let mut out = Vec::new();
    while let Some(t) = parse_next(&mut q) {
        out.push(t);
    }
    (out, q)
}

#[test]
fn control_and_plain_bytes() {
    let (toks, rest) = all_tokens(&[0x03, 0x00, 0x07, 0x7F, 0x1F, b'z']);
    assert_eq!(
        toks,
        vec![
            Token::Ctrl('C'),
            Token::Ctrl('@'),
            Token::Key(TokenKey::Bell),
            Token::Key(TokenKey::Del),
            Token::Ctrl('?'),
            Token::Byte(b'z'),
        ]
    );
    assert!(rest.is_empty());
}

#[test]
fn escape_sequences_are_read_whole() {
    let (toks, rest) = all_tokens(b"\x1b[A\x1bOP\x1b[200~\x1b[201~\x1b[15~");
    assert_eq!(
        toks,
        vec![
            Token::Key(TokenKey::Up),
            Token::Key(TokenKey::F(1)),
            Token::PasteStart,
            Token::PasteEnd,
            Token::Key(TokenKey::F(5)),
        ]
    );
    assert!(rest.is_empty());
}

#[test]
fn open_sequences_wait_and_keep_their_bytes() {
    let mut q = queue(b"\x1b");
    assert_eq!(parse_next(&mut q), None);
    assert_eq!(q.len(), 1);
    let mut q = queue(b"\x1b[1;5");
    assert_eq!(parse_next(&mut q), None);
    assert_eq!(q.len(), 5);
    q.push_back(b'A');
    assert_eq!(parse_next(&mut q), Some(Token::Csi(b"[1;5A".to_vec())));
    assert!(q.is_empty());
}

#[test]
fn esc_before_other_bytes_is_bare() {
    let (toks, _) = all_tokens(b"\x1bx");
    assert_eq!(toks, vec![Token::Esc, Token::Byte(b'x')]);
}

#[test]
fn runaway_sequence_is_given_up_as_raw() {
    let mut bytes = vec![0x1B, b'['];
    bytes.extend_from_slice(&[b'1'; 70]);
    let mut q = queue(&bytes);
    match parse_next(&mut q) {
        Some(Token::Csi(s)) => assert_eq!(s.len(), 63),
        other => panic!("unexpected {:?}", other),
    }
    assert_eq!(q.len(), 72 - 64);
}

#[test]
fn tokenizer_cap_matches_the_segmenter() {
    let mut bytes = vec![0x1B, b'['];
    bytes.extend_from_slice(&[b'1'; 61]);
    let mut q = queue(&bytes);
    assert_eq!(parse_next(&mut q), None);
    assert_eq!(q.len(), 63);
    q.push_back(b'A');
    match parse_next(&mut q) {
        Some(Token::Csi(s)) => assert_eq!(s.len(), 63),
        other => panic!("unexpected {:?}", other),
    }
    assert!(q.is_empty());
    let mut seg = tuicore::Segmenter::new(35);
    for b in bytes.iter().chain([b'A'].iter()) {
        seg.push_byte(*b, 0);
    }
    assert_eq!(seg.next_ready(0).map(|v| v.len()), Some(64));
}

#[test]
fn gather_reports_completeness() {
    let mut q = queue(b"\x1b[12~x");
    assert_eq!(gather_ansi(&mut q, b'['), Some((b"[12~".to_vec(), true)));
    assert_eq!(q, queue(b"x"));
    let mut q = queue(b"\x1b[200~x");
    assert_eq!(gather_ansi(&mut q, b'['), Some((b"[200~".to_vec(), true)));
    assert_eq!(q, queue(b"x"));
    let mut q = queue(b"\x1b[12");
    assert_eq!(gather_ansi(&mut q, b'['), None);
    assert_eq!(q, queue(b"\x1b[12"));
    for short in [&b""[..], b"\x1b", b"\x1b["] {
        let mut q = queue(short);
        assert_eq!(gather_ansi(&mut q, b'['), None);
        assert_eq!(q.len(), short.len());
    }
    let mut q = queue(b"\x1bOH");
    assert_eq!(gather_ansi(&mut q, b'O'), Some((b"OH".to_vec(), true)));
    assert!(q.is_empty());
    let mut bytes = vec![0x1B, b'['];
    bytes.extend_from_slice(&[b'1'; 70]);
    let mut q = queue(&bytes);
    match gather_ansi(&mut q, b'[') {
        Some((s, complete)) => {
            assert_eq!(s.len(), 63);
            assert!(!complete);
        }
        None => panic!("expected a cut sequence"),
    }
    assert_eq!(q.len(), 72 - 64);
}

#[test]
fn ss3_table_matches_the_decoder() {
    assert_eq!(map_ss3(b"OH"), Some(Token::Key(TokenKey::Home)));
    assert_eq!(map_ss3(b"OF"), Some(Token::Key(TokenKey::End)));
    assert_eq!(map_ss3(b"OP"), Some(Token::Key(TokenKey::F(1))));
    assert_eq!(map_ss3(b"OS"), Some(Token::Key(TokenKey::F(4))));
    assert_eq!(map_ss3(b"XA"), None);
    assert_eq!(map_ss3(b"XH"), None);
    let (toks, rest) = all_tokens(b"\x1bOH\x1bOF\x1bOB");
    assert_eq!(
        toks,
        vec![Token::Key(TokenKey::Home), Token::Key(TokenKey::End), Token::Key(TokenKey::Down)]
    );
    assert!(rest.is_empty());
}

#[test]
fn mouse_and_unknown_sequences() {
    assert_eq!(
        map_csi(b"[<0;10;20M"),
        Some(Token::Mouse { press: true, x: 10, y: 20, mods: 0, btn: 0 })
    );
    assert_eq!(
        map_csi(b"[<18;1;2m"),
        Some(Token::Mouse { press: false, x: 1, y: 2, mods: 2, btn: 2 })
    );
    assert_eq!(
        map_csi(b"[<20;5;7M"),
        Some(Token::Mouse { press: true, x: 5, y: 7, mods: 2, btn: 4 })
    );
    assert_eq!(
        map_csi(b"[<0;70000;1M"),
        Some(Token::Mouse { press: true, x: 70000, y: 1, mods: 0, btn: 0 })
    );
    assert_eq!(map_csi(b"[<0;1;2147483648M"), None);
    assert_eq!(map_csi(b"[07~"), None);
    assert_eq!(map_csi(b"[99~"), None);
    assert_eq!(map_csi(b"[H"), Some(Token::Key(TokenKey::Home)));
    assert_eq!(map_ss3(b"OD"), Some(Token::Key(TokenKey::Left)));
    assert_eq!(map_ss3(b"OZ"), None);
    assert_eq!(map_csi(b"XA"), None);
}

#[test]
fn token_texts() {
    assert_eq!(print_token(&Token::Byte(0x41)), "\\x41");
    assert_eq!(print_token(&Token::Byte(0xab)), "\\xab");
    assert_eq!(print_token(&Token::Ctrl('C')), "<CTRL-C>");
    assert_eq!(print_token(&Token::Esc), "<ESC>");
    assert_eq!(print_token(&Token::Key(TokenKey::PageDown)), "<PGDN>");
    assert_eq!(print_token(&Token::Key(TokenKey::F(11))), "<F11>");
    assert_eq!(print_token(&Token::Csi(b"[1;5A".to_vec())), "<CSI [1;5A>");
    assert_eq!(print_token(&Token::Ss3(b"Oz".to_vec())), "<SS3 Oz>");
    assert_eq!(print_token(&Token::PasteStart), "<PASTE-START>");
    assert_eq!(
        print_token(&Token::Mouse { press: true, x: 10, y: 20, mods: 0, btn: 1 }),
        "<MOUSE DOWN btn=1 x=10 y=20 mods=0>"
    );
}

#[test]
fn capability_sequences() {
    assert_eq!(enable_capabilities(true, true), b"\x1b[?2004h\x1b[?1000h\x1b[?1006h".to_vec());
    assert_eq!(enable_capabilities(true, false), b"\x1b[?2004h".to_vec());
    assert_eq!(enable_capabilities(false, true), b"\x1b[?1000h\x1b[?1006h".to_vec());
    assert!(enable_capabilities(false, false).is_empty());
    assert_eq!(cleanup_capabilities(), b"\x1b[?2004l\x1b[?1000l".to_vec());
}
