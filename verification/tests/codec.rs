use imap_wire::codec::{decode_command, decode_greeting, decode_response};
use imap_wire::encode::{CommandCodec, GreetingCodec, ResponseCodec};
use imap_wire::types::{
    Code, Command, CommandBody, CommandDecodeError, Data, Flag, Fragment, Greeting, GreetingKind,
    LiteralMode, Response, ResponseDecodeError, Tag,
};

#[test]
fn fetch_without_crlf_is_incomplete() {
    let r = decode_command(b"A1 FETCH (FLAGS (\\Seen))");
    assert!(matches!(r, Err(CommandDecodeError::Incomplete)));
}

#[test]
fn login_literal_found() {
    let r = decode_command(b"A1 LOGIN {5}\r\n");
    match r {
        Err(CommandDecodeError::LiteralFound { tag, length, mode }) => {
            assert_eq!(tag.bytes, b"A1".to_vec());
            assert_eq!(length, 5);
            assert!(matches!(mode, LiteralMode::Sync));
        },
        _ => panic!("expected LiteralFound"),
    }
}

#[test]
fn login_nonsync_literal_found() {
    let r = decode_command(b"A1 LOGIN {5+}\r\n");
    match r {
        Err(CommandDecodeError::LiteralFound { tag, length, mode }) => {
            assert_eq!(tag.bytes, b"A1".to_vec());
            assert_eq!(length, 5);
            assert!(matches!(mode, LiteralMode::NonSync));
        },
        _ => panic!("expected LiteralFound"),
    }
}

#[test]
fn expunge_response() {
    let r = decode_response(b"* 12 EXPUNGE\r\n");
    match r {
        Ok((rem, Response::Data(Data::Expunge(n)))) => {
            assert_eq!(n, 12);
            assert!(rem.is_empty());
        },
        _ => panic!("expected Expunge data"),
    }
}

#[test]
fn preauth_greeting_dump() {
    let g = Greeting::new(GreetingKind::PreAuth, b"done".to_vec(), None).unwrap();
    let mut e = GreetingCodec::new().encode(&g);
    let bytes = e.dump();
    assert_eq!(bytes, b"* PREAUTH done\r\n".to_vec());
    assert!(e.next().is_none());
}

#[test]
fn greeting_round_trip_through_bytes() {
    let g = Greeting::new(
        GreetingKind::Okay,
        b"IMAP4rev1 Service Ready".to_vec(),
        Some(Code::Alert),
    )
    .unwrap();
    let mut e = GreetingCodec::new().encode(&g);
    let bytes = e.dump();
    assert_eq!(bytes, b"* OK [ALERT] IMAP4rev1 Service Ready\r\n".to_vec());
    let (rem, g2) = decode_greeting(&bytes).unwrap();
    assert!(rem.is_empty());
    assert!(matches!(g2.kind, GreetingKind::Okay));
    assert!(matches!(g2.code, Some(Code::Alert)));
    assert_eq!(g2.text, b"IMAP4rev1 Service Ready".to_vec());
}

#[test]
fn greeting_incomplete_then_failed() {
    assert!(matches!(
        decode_greeting(b"* OK almost"),
        Err(imap_wire::types::GreetingDecodeError::Incomplete)
    ));
    assert!(matches!(
        decode_greeting(b"nonsense\r\n"),
        Err(imap_wire::types::GreetingDecodeError::Failed)
    ));
}

#[test]
fn login_command_with_literal_fragments() {
    let cmd = Command {
        tag: Tag::new(b"A1".to_vec()).unwrap(),
        body: CommandBody::Login {
            username: imap_wire::types::AString::Atom(b"alice".to_vec()),
            password: imap_wire::types::AString::Str(imap_wire::types::IString::Literal {
                data: b"hunter".to_vec(),
                mode: LiteralMode::Sync,
            }),
        },
    };
    let mut e = CommandCodec::new().encode(&cmd);
    // the announcing line comes strictly before the literal payload
    match e.next().unwrap() {
        Fragment::Line { data } => assert_eq!(data, b"A1 LOGIN alice {6}\r\n".to_vec()),
        _ => panic!("expected a line first"),
    }
    match e.next().unwrap() {
        Fragment::Literal { data, mode } => {
            assert_eq!(data, b"hunter".to_vec());
            assert!(matches!(mode, LiteralMode::Sync));
        },
        _ => panic!("expected the literal payload second"),
    }
    match e.next().unwrap() {
        Fragment::Line { data } => assert_eq!(data, b"\r\n".to_vec()),
        _ => panic!("expected the closing line"),
    }
    assert!(e.next().is_none());
}

#[test]
fn command_round_trip_login_literal() {
    let input = b"A1 LOGIN alice {6}\r\nhunter\r\n";
    let (rem, cmd) = decode_command(input).unwrap();
    assert!(rem.is_empty());
    assert_eq!(cmd.tag.bytes, b"A1".to_vec());
    let mut e = CommandCodec::new().encode(&cmd);
    assert_eq!(e.dump(), input.to_vec());
}

#[test]
fn noop_command_decodes() {
    let (rem, cmd) = decode_command(b"t1 NOOP\r\nrest").unwrap();
    assert_eq!(rem, b"rest".to_vec());
    assert!(matches!(cmd.body, CommandBody::Noop));
}

#[test]
fn select_inbox_case_insensitive() {
    let (_, cmd) = decode_command(b"a SELECT iNbOx\r\n").unwrap();
    match cmd.body {
        CommandBody::Select { mailbox } => {
            assert!(matches!(mailbox, imap_wire::types::Mailbox::Inbox))
        },
        _ => panic!("expected SELECT"),
    }
}

#[test]
fn bad_tag_fails_immediately() {
    // a byte that can never begin a tag decides the outcome at once
    assert!(matches!(
        decode_command(b"%%%"),
        Err(CommandDecodeError::Failed)
    ));
}

#[test]
fn failed_stays_failed_with_more_bytes() {
    let r1 = decode_command(b"a1 BOGUS!!\r\n");
    assert!(matches!(r1, Err(CommandDecodeError::Failed)));
    let r2 = decode_command(b"a1 BOGUS!!\r\nmore bytes that arrived later");
    assert!(matches!(r2, Err(CommandDecodeError::Failed)));
}

#[test]
fn tagged_ok_response_with_code() {
    let (rem, resp) = decode_response(b"a047 OK [READ-WRITE] SELECT completed\r\n").unwrap();
    assert!(rem.is_empty());
    match resp {
        Response::Status(imap_wire::types::Status::Okay { tag, code, text }) => {
            assert_eq!(tag.unwrap().bytes, b"a047".to_vec());
            assert!(matches!(code, Some(Code::ReadWrite)));
            assert_eq!(text, b"SELECT completed".to_vec());
        },
        _ => panic!("expected tagged OK"),
    }
}

#[test]
fn fetch_response_with_flags_and_uid() {
    let (rem, resp) = decode_response(b"* 7 FETCH (FLAGS (\\Seen) UID 42)\r\n").unwrap();
    assert!(rem.is_empty());
    match resp {
        Response::Data(Data::Fetch { seq_or_uid, attributes }) => {
            assert_eq!(seq_or_uid, 7);
            assert_eq!(attributes.len(), 2);
            assert!(matches!(
                attributes[0],
                imap_wire::types::MessageAttribute::Flags(_)
            ));
            assert!(matches!(
                attributes[1],
                imap_wire::types::MessageAttribute::Uid(42)
            ));
        },
        _ => panic!("expected FETCH data"),
    }
}

#[test]
fn fetch_response_rfc822_text_literal() {
    let (rem, resp) = decode_response(b"* 1 FETCH (RFC822.TEXT {3}\r\nhi\n)\r\n").unwrap();
    assert!(rem.is_empty());
    match resp {
        Response::Data(Data::Fetch { attributes, .. }) => {
            match &attributes[0] {
                imap_wire::types::MessageAttribute::Rfc822Text(Some(
                    imap_wire::types::IString::Literal { data, .. },
                )) => assert_eq!(data, &b"hi\n".to_vec()),
                _ => panic!("expected a literal RFC822.TEXT, not bare RFC822"),
            }
        },
        _ => panic!("expected FETCH data"),
    }
}

#[test]
fn response_literal_found_reports_length() {
    let r = decode_response(b"* 1 FETCH (RFC822.TEXT {300}\r\n");
    assert!(matches!(
        r,
        Err(ResponseDecodeError::LiteralFound { length: 300 })
    ));
}

#[test]
fn search_response_numbers() {
    let (_, resp) = decode_response(b"* SEARCH 2 84 882\r\n").unwrap();
    match resp {
        Response::Data(Data::Search(v)) => assert_eq!(v, vec![2, 84, 882]),
        _ => panic!("expected SEARCH data"),
    }
}

#[test]
fn capability_greeting_code() {
    let (_, g) = decode_greeting(b"* OK [CAPABILITY IMAP4rev1 STARTTLS] ready\r\n").unwrap();
    match g.code {
        Some(Code::Capability(v)) => {
            assert_eq!(v.len(), 2);
            assert_eq!(v[0], b"IMAP4rev1".to_vec());
        },
        _ => panic!("expected capability code"),
    }
}

#[test]
fn quoted_string_escapes_unescaped_on_decode() {
    let (_, cmd) = decode_command(b"a LOGIN \"al\\\"ice\" \"pw\"\r\n").unwrap();
    match cmd.body {
        CommandBody::Login { username, .. } => match username {
            imap_wire::types::AString::Str(imap_wire::types::IString::Quoted(q)) => {
                assert_eq!(q, b"al\"ice".to_vec());
            },
            _ => panic!("expected a quoted username"),
        },
        _ => panic!("expected LOGIN"),
    }
}

#[test]
fn tag_validation_rejects_plus() {
    assert!(Tag::new(b"A+1".to_vec()).is_err());
    assert!(Tag::new(b"".to_vec()).is_err());
    assert!(Tag::new(b"A1".to_vec()).is_ok());
}

#[test]
fn greeting_text_validation() {
    assert!(Greeting::new(GreetingKind::Okay, b"ok\r\n".to_vec(), None).is_err());
    assert!(Greeting::new(GreetingKind::Okay, b"".to_vec(), None).is_err());
    assert!(Greeting::new(GreetingKind::Bye, b"closing".to_vec(), None).is_ok());
}

#[test]
fn response_codec_type_decodes() {
    let codec = ResponseCodec::new();
    let (_, resp) = codec.decode(b"+ idling\r\n").unwrap();
    match resp {
        Response::CommandContinuationRequest { code, text } => {
            assert!(code.is_none());
            assert_eq!(text, b"idling".to_vec());
        },
        _ => panic!("expected continuation request"),
    }
}

#[test]
fn pipelined_commands_leave_remainder() {
    let (rem, cmd) = decode_command(b"a1 NOOP\r\na2 LOGOUT\r\n").unwrap();
    assert!(matches!(cmd.body, CommandBody::Noop));
    let (rem2, cmd2) = decode_command(&rem).unwrap();
    assert!(rem2.is_empty());
    assert!(matches!(cmd2.body, CommandBody::Logout));
}

#[test]
fn number_overflow_is_failure() {
    // a sequence number beyond 32 bits can never be valid
    assert!(matches!(
        decode_response(b"* 99999999999 EXISTS\r\n"),
        Err(ResponseDecodeError::Failed)
    ));
}

#[test]
fn body_section_attribute_decodes() {
    let (rem, resp) = decode_response(b"* 1 FETCH (BODY[] {2}\r\nhi)\r\n").unwrap();
    assert!(rem.is_empty());
    match resp {
        Response::Data(Data::Fetch { attributes, .. }) => match &attributes[0] {
            imap_wire::types::MessageAttribute::BodyExt { section, origin, data } => {
                assert!(section.is_none());
                assert!(origin.is_none());
                match data {
                    Some(imap_wire::types::IString::Literal { data, .. }) => {
                        assert_eq!(data, &b"hi".to_vec())
                    },
                    _ => panic!("expected literal data"),
                }
            },
            _ => panic!("expected BODY[] attribute"),
        },
        _ => panic!("expected FETCH data"),
    }
}

#[test]
fn body_section_with_origin_decodes() {
    let (_, resp) = decode_response(b"* 3 FETCH (BODY[HEADER]<5> \"x\")\r\n").unwrap();
    match resp {
        Response::Data(Data::Fetch { attributes, .. }) => match &attributes[0] {
            imap_wire::types::MessageAttribute::BodyExt { section, origin, .. } => {
                assert!(matches!(
                    section,
                    Some(imap_wire::types::Section::Msgtext(
                        imap_wire::types::Msgtext::Header
                    ))
                ));
                assert_eq!(*origin, Some(5));
            },
            _ => panic!("expected BODY[HEADER]<5>"),
        },
        _ => panic!("expected FETCH data"),
    }
}

#[test]
fn fetch_command_body_peek_round_trip() {
    let input = b"a FETCH 1 BODY.PEEK[HEADER.FIELDS (date subject)]\r\n";
    let (rem, cmd) = decode_command(input).unwrap();
    assert!(rem.is_empty());
    match &cmd.body {
        CommandBody::Fetch { attributes, .. } => match attributes {
            imap_wire::types::FetchArgs::Single(imap_wire::types::FetchAtt::BodySection {
                peek,
                ..
            }) => assert!(*peek),
            _ => panic!("expected a single BODY.PEEK attribute"),
        },
        _ => panic!("expected FETCH"),
    }
    let mut e = CommandCodec::new().encode(&cmd);
    assert_eq!(e.dump(), input.to_vec());
}

#[test]
fn fetch_command_partial_section_round_trip() {
    let input = b"a FETCH 1 (BODY[1.2.MIME]<0.10> UID)\r\n";
    let (rem, cmd) = decode_command(input).unwrap();
    assert!(rem.is_empty());
    let mut e = CommandCodec::new().encode(&cmd);
    assert_eq!(e.dump(), input.to_vec());
}

#[test]
fn doomed_greeting_prefixes_fail_early() {
    // no extension of these can ever become a greeting
    assert!(matches!(
        decode_greeting(b"X"),
        Err(imap_wire::types::GreetingDecodeError::Failed)
    ));
    assert!(matches!(
        decode_greeting(b"* X"),
        Err(imap_wire::types::GreetingDecodeError::Failed)
    ));
    // while a true prefix stays incomplete
    assert!(matches!(
        decode_greeting(b"* PREA"),
        Err(imap_wire::types::GreetingDecodeError::Incomplete)
    ));
}

#[test]
fn doomed_command_name_fails_early() {
    // a valid tag followed by an impossible command name, no CRLF yet
    assert!(matches!(
        decode_command(b"a1 BOGUS"),
        Err(CommandDecodeError::Failed)
    ));
    // a true prefix of LOGIN stays incomplete
    assert!(matches!(
        decode_command(b"a1 LOGI"),
        Err(CommandDecodeError::Incomplete)
    ));
}

#[test]
fn doomed_response_prefixes_fail_early() {
    assert!(matches!(
        decode_response(b"%%"),
        Err(ResponseDecodeError::Failed)
    ));
    assert!(matches!(
        decode_response(b"+x"),
        Err(ResponseDecodeError::Failed)
    ));
    assert!(matches!(
        decode_response(b"a047 O"),
        Err(ResponseDecodeError::Incomplete)
    ));
}

#[test]
fn response_encode_round_trips() {
    let input = b"a047 OK [READ-WRITE] SELECT completed\r\n";
    let (_, resp) = decode_response(input).unwrap();
    let mut e = ResponseCodec::new().encode(&resp);
    assert_eq!(e.dump(), input.to_vec());

    // flag names are emitted in their canonical upper-case spelling
    let input2 = b"* 7 FETCH (FLAGS (\\SEEN) UID 42 RFC822.TEXT {3}\r\nhi\n)\r\n";
    let (_, resp2) = decode_response(input2).unwrap();
    let mut e2 = ResponseCodec::new().encode(&resp2);
    assert_eq!(e2.dump(), input2.to_vec());
}

#[test]
fn response_literal_fragments_in_order() {
    let (_, resp) = decode_response(b"* 1 FETCH (RFC822.TEXT {2}\r\nok)\r\n").unwrap();
    let mut e = ResponseCodec::new().encode(&resp);
    match e.next().unwrap() {
        Fragment::Line { data } => assert_eq!(data, b"* 1 FETCH (RFC822.TEXT {2}\r\n".to_vec()),
        _ => panic!("expected the announcing line first"),
    }
    match e.next().unwrap() {
        Fragment::Literal { data, .. } => assert_eq!(data, b"ok".to_vec()),
        _ => panic!("expected the literal payload second"),
    }
    match e.next().unwrap() {
        Fragment::Line { data } => assert_eq!(data, b")\r\n".to_vec()),
        _ => panic!("expected the closing line"),
    }
    assert!(e.next().is_none());
}

#[test]
fn greeting_code_validation() {
    assert!(matches!(
        Greeting::new(GreetingKind::Okay, b"ok".to_vec(), Some(Code::UidNext(0))),
        Err(imap_wire::types::ValidationError::InvalidCode)
    ));
    assert!(Greeting::new(GreetingKind::Okay, b"ok".to_vec(), Some(Code::UidNext(7))).is_ok());
}

#[test]
fn code_validation() {
    // an unknown-code atom must not collide with a recognised name
    assert!(Code::new(Code::Other(b"ALERT".to_vec(), None)).is_err());
    assert!(Code::new(Code::Other(b"X-NAME".to_vec(), Some(b"hi".to_vec()))).is_ok());
    assert!(Code::new(Code::Capability(vec![])).is_err());
}

#[test]
fn status_command_round_trip() {
    let input = b"a2 STATUS blurdybloop (UIDNEXT MESSAGES)\r\n";
    let (rem, cmd) = decode_command(input).unwrap();
    assert!(rem.is_empty());
    match &cmd.body {
        CommandBody::Status { items, .. } => {
            assert_eq!(items.len(), 2);
            assert!(matches!(items[0], imap_wire::types::StatusItem::UidNext));
        },
        _ => panic!("expected STATUS"),
    }
    let mut e = CommandCodec::new().encode(&cmd);
    assert_eq!(e.dump(), input.to_vec());
}

#[test]
fn append_command_literal_found_then_round_trip() {
    // the message literal blocks on continuation first
    let r = decode_command(b"a3 APPEND saved (\\Seen) {11}\r\n");
    match r {
        Err(CommandDecodeError::LiteralFound { tag, length, mode }) => {
            assert_eq!(tag.bytes, b"a3".to_vec());
            assert_eq!(length, 11);
            assert!(matches!(mode, LiteralMode::Sync));
        },
        _ => panic!("expected LiteralFound"),
    }
    // once present, the full command decodes and re-encodes exactly
    let input = b"a3 APPEND saved (\\SEEN) {11}\r\nhello world\r\n";
    let (rem, cmd) = decode_command(input).unwrap();
    assert!(rem.is_empty());
    match &cmd.body {
        CommandBody::Append { flags, date, message, .. } => {
            assert_eq!(flags.len(), 1);
            assert!(date.is_none());
            assert_eq!(message, &b"hello world".to_vec());
        },
        _ => panic!("expected APPEND"),
    }
    let mut e = CommandCodec::new().encode(&cmd);
    assert_eq!(e.dump(), input.to_vec());
}

#[test]
fn append_command_with_date() {
    let input = b"a9 APPEND box \"14-Jul-2020 02:44:25 -0700\" {2}\r\nok\r\n";
    let (rem, cmd) = decode_command(input).unwrap();
    assert!(rem.is_empty());
    match &cmd.body {
        CommandBody::Append { date, .. } => {
            let d = date.unwrap();
            assert_eq!(d.day, 14);
            assert_eq!(d.month, 7);
            assert_eq!(d.year, 2020);
            assert!(d.zone_negative);
        },
        _ => panic!("expected APPEND"),
    }
}

#[test]
fn store_command_round_trip() {
    let input = b"a4 STORE 2:4 +FLAGS.SILENT (\\DELETED)\r\n";
    let (rem, cmd) = decode_command(input).unwrap();
    assert!(rem.is_empty());
    match &cmd.body {
        CommandBody::Store { kind, silent, flags, .. } => {
            assert!(matches!(kind, imap_wire::types::StoreKind::Add));
            assert!(*silent);
            assert_eq!(flags.len(), 1);
        },
        _ => panic!("expected STORE"),
    }
    let mut e = CommandCodec::new().encode(&cmd);
    assert_eq!(e.dump(), input.to_vec());
}

#[test]
fn search_command_round_trip() {
    let input = b"a5 SEARCH UNSEEN DELETED\r\n";
    let (rem, cmd) = decode_command(input).unwrap();
    assert!(rem.is_empty());
    match &cmd.body {
        CommandBody::Search { keys } => {
            assert_eq!(keys.len(), 2);
            assert!(matches!(keys[0], imap_wire::types::SearchKey::Unseen));
        },
        _ => panic!("expected SEARCH"),
    }
    let mut e = CommandCodec::new().encode(&cmd);
    assert_eq!(e.dump(), input.to_vec());
}

#[test]
fn status_name_prefix_stays_incomplete() {
    // STATUS and STORE share the prefix ST; neither is ruled out yet
    assert!(matches!(
        decode_command(b"a6 ST"),
        Err(CommandDecodeError::Incomplete)
    ));
}

#[test]
fn doomed_after_keyword_fails_early() {
    // NUL can never open a greeting's text
    assert!(matches!(
        decode_greeting(b"* OK \x00"),
        Err(imap_wire::types::GreetingDecodeError::Failed)
    ));
    // a control byte can never open a command argument
    assert!(matches!(
        decode_command(b"a1 LOGIN \x01"),
        Err(CommandDecodeError::Failed)
    ));
    // while argument openers stay incomplete
    assert!(matches!(
        decode_command(b"a1 LOGIN {"),
        Err(CommandDecodeError::Incomplete)
    ));
    assert!(matches!(
        decode_greeting(b"* OK ["),
        Err(imap_wire::types::GreetingDecodeError::Incomplete)
    ));
}

#[test]
fn status_response_round_trip() {
    let input = b"* STATUS blurdybloop (MESSAGES 231 UIDNEXT 44292)\r\n";
    let (rem, resp) = decode_response(input).unwrap();
    assert!(rem.is_empty());
    match &resp {
        Response::Data(Data::Status { items, .. }) => {
            assert_eq!(items.len(), 2);
            assert!(matches!(
                items[0],
                (imap_wire::types::StatusItem::Messages, 231)
            ));
        },
        _ => panic!("expected STATUS data"),
    }
    let mut e = ResponseCodec::new().encode(&resp);
    assert_eq!(e.dump(), input.to_vec());
}

#[test]
fn status_response_empty_items() {
    let (_, resp) = decode_response(b"* STATUS box ()\r\n").unwrap();
    match resp {
        Response::Data(Data::Status { items, .. }) => assert!(items.is_empty()),
        _ => panic!("expected STATUS data"),
    }
}
