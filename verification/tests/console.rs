use stegos::console::{
    on_input, parse_money, text, ChainNameResolver, Complaint, Formatter, HelpTopic, InputError,
    MoneyError, Parsed, Prompt, Request, ResolverStep, Span, PAYMENT_FEE,
};
use stegos::history::{history_start, parse_past_datetime, past_time, read_duration, readable};

fn cut(line: &str, span: Span) -> String {
    text(line, span).to_string()
}

#[test]
fn parse_money_reads_digits_and_underscores() {
    assert_eq!(parse_money("1_000"), Ok(1000));
    assert_eq!(parse_money("0"), Ok(0));
    assert_eq!(parse_money("007"), Ok(7));
    assert_eq!(parse_money("_1_"), Ok(1));
    assert_eq!(parse_money("9223372036854775807"), Ok(i64::MAX));
    assert_eq!(parse_money("9223372036854775808"), Err(MoneyError::PosOverflow));
    assert_eq!(parse_money("99999999999999999999999"), Err(MoneyError::PosOverflow));
    assert_eq!(parse_money("-9223372036854775808"), Ok(i64::MIN));
    assert_eq!(parse_money("-9223372036854775809"), Err(MoneyError::NegOverflow));
    assert_eq!(parse_money("+5"), Ok(5));
    assert_eq!(parse_money("_+5"), Ok(5));
    assert_eq!(parse_money("-1_0"), Ok(-10));
    assert_eq!(parse_money(""), Err(MoneyError::Empty));
    assert_eq!(parse_money("___"), Err(MoneyError::Empty));
    assert_eq!(parse_money("-"), Err(MoneyError::InvalidDigit));
    assert_eq!(parse_money("+_"), Err(MoneyError::InvalidDigit));
    assert_eq!(parse_money("12a"), Err(MoneyError::InvalidDigit));
    assert_eq!(parse_money("1 2"), Err(MoneyError::InvalidDigit));
    assert_eq!(parse_money("1-2"), Err(MoneyError::InvalidDigit));
    // As the standard library reads the text without its underscores.
    for t in ["1_000", "_+5", "-", "", "___", "9223372036854775808", "-9223372036854775809", "0_0"] {
        assert_eq!(parse_money(t).ok(), t.replace('_', "").parse::<i64>().ok(), "{}", t);
    }
}

#[test]
fn plain_commands() {
    let cases = [
        ("lock", Parsed::Send(Request::Seal)),
        ("  seal  ", Parsed::Send(Request::Seal)),
        ("unlock", Parsed::Ask(Prompt::Unseal)),
        ("unseal", Parsed::Ask(Prompt::Unseal)),
        ("net peers", Parsed::Send(Request::ConnectedNodes)),
        ("net peers please", Parsed::Send(Request::ConnectedNodes)),
        ("stake all", Parsed::Send(Request::StakeAll { payment_fee: PAYMENT_FEE })),
        ("unstake", Parsed::Send(Request::UnstakeAll { payment_fee: 1000 })),
        ("restake", Parsed::Send(Request::RestakeAll)),
        ("cloak", Parsed::Send(Request::CloakAll { payment_fee: 1000 })),
        ("show version", Parsed::Send(Request::VersionInfo)),
        ("show validators", Parsed::Send(Request::ValidatorsInfo)),
        ("show keys", Parsed::Send(Request::AccountInfo)),
        ("show balance", Parsed::Send(Request::BalanceInfo)),
        ("show election", Parsed::Send(Request::ElectionInfo)),
        ("show escrow", Parsed::Send(Request::EscrowInfo)),
        ("show replication", Parsed::Send(Request::ReplicationInfo)),
        ("change upstream", Parsed::Send(Request::ChangeUpstream)),
        ("show utxo", Parsed::Send(Request::UnspentInfo)),
        ("show recovery", Parsed::Send(Request::GetRecovery)),
        ("show status", Parsed::Send(Request::StatusInfo)),
        ("show status now", Parsed::Send(Request::StatusInfo)),
        ("subscribe status", Parsed::Send(Request::SubscribeStatus)),
        ("show accounts", Parsed::Send(Request::AccountsInfo)),
        ("create account", Parsed::Ask(Prompt::CreateAccount)),
        ("recover account", Parsed::Ask(Prompt::RecoverAccount)),
        ("passwd", Parsed::Ask(Prompt::ChangePassword)),
        ("delete account", Parsed::Ask(Prompt::DeleteAccount)),
        ("delete accounts", Parsed::Ask(Prompt::DeleteAccount)),
        ("pop block", Parsed::Send(Request::PopMicroBlock)),
        ("enable restaking", Parsed::Send(Request::EnableRestaking)),
        ("disable restaking", Parsed::Send(Request::DisableRestaking)),
        ("", Parsed::Help(HelpTopic::General)),
        ("   ", Parsed::Help(HelpTopic::General)),
        ("help", Parsed::Help(HelpTopic::General)),
        ("locks", Parsed::Help(HelpTopic::General)),
        ("show keys now", Parsed::Help(HelpTopic::General)),
        ("pay", Parsed::Help(HelpTopic::General)),
        ("Lock", Parsed::Help(HelpTopic::General)),
    ];
    for (line, expected) in cases {
        assert_eq!(on_input(line), expected, "{:?}", line);
    }
}

#[test]
fn prompt_returns() {
    assert!(on_input("help").returns_prompt());
    assert!(on_input("show version").returns_prompt());
    assert!(on_input("show validators").returns_prompt());
    assert!(on_input("use 1").returns_prompt());
    assert!(on_input("pay a 1 /public /snowball").returns_prompt());
    assert!(on_input("stake x").returns_prompt());
    assert!(!on_input("show keys").returns_prompt());
    assert!(!on_input("pay a 1").returns_prompt());
    assert!(!on_input("unlock").returns_prompt());
    assert!(!on_input("show history").returns_prompt());
}

fn payment(line: &str) -> (String, i64, i64, String, bool) {
    match on_input(line) {
        Parsed::Send(Request::Payment { recipient, amount, payment_fee, comment, with_certificate }) => {
            (cut(line, recipient), amount, payment_fee, cut(line, comment), with_certificate)
        }
        other => panic!("{:?} gives {:?}", line, other),
    }
}

#[test]
fn pay_command() {
    assert_eq!(payment("pay 7fAbc 1_000"), ("7fAbc".into(), 1000, 1000, "".into(), false));
    assert_eq!(payment("  pay   7fAbc   5  "), ("7fAbc".into(), 5, 1000, "".into(), false));
    assert_eq!(payment("pay A 5 for the rent"), ("A".into(), 5, 1000, "for the rent".into(), false));
    assert_eq!(payment("pay A 5 rent /fee 2_0"), ("A".into(), 5, 20, "rent".into(), false));
    assert_eq!(payment("pay A 5 rent   /fee 7 /certificate"), ("A".into(), 5, 7, "rent".into(), true));
    assert_eq!(payment("pay A 5 /certificate"), ("A".into(), 5, 1000, "".into(), true));
    assert_eq!(payment("pay A 5  /fee 3"), ("A".into(), 5, 3, "".into(), false));
    // Three characters of white space before an option: the second is the purpose.
    assert_eq!(payment("pay A 5   /fee 3"), ("A".into(), 5, 3, " ".into(), false));
    assert_eq!(payment("pay A 5 a b\tc"), ("A".into(), 5, 1000, "a b\tc".into(), false));

    let line = "pay A 5 /snowball mixed /fee 9";
    match on_input(line) {
        Parsed::Send(Request::SecurePayment { recipient, amount, payment_fee, comment }) => {
            assert_eq!((cut(line, recipient), amount, payment_fee), ("A".to_string(), 5, 9));
            assert_eq!(cut(line, comment), "mixed");
        }
        other => panic!("{:?}", other),
    }
    let line = "pay A 5 /public";
    match on_input(line) {
        Parsed::Send(Request::PublicPayment { recipient, amount, payment_fee }) => {
            assert_eq!((cut(line, recipient), amount, payment_fee), ("A".to_string(), 5, 1000));
        }
        other => panic!("{:?}", other),
    }

    assert_eq!(on_input("pay A 5 /public /snowball"), Parsed::Fail(InputError::SnowballPublic));
    assert_eq!(on_input("pay A 5 /public /certificate"), Parsed::Fail(InputError::CertificatePublic));
    assert_eq!(on_input("pay A 5 /snowball /certificate"), Parsed::Fail(InputError::SnowballCertificate));
    assert_eq!(on_input("pay A 5 /public gift"), Parsed::Fail(InputError::PublicComment));
    assert_eq!(on_input("pay A 5 /public    /fee 1"), Parsed::Fail(InputError::PublicComment));

    // The line is trimmed before it is read.
    assert_eq!(on_input("pay "), Parsed::Help(HelpTopic::General));
    for line in [
        "pay  .",
        "pay A",
        "pay A b",
        "pay A! 5",
        "pay A 5x",
        "pay A 5 /snowball /public",
        "pay A 5 /certificate /fee 1",
        "pay A 5 /fee  1",
        "pay A 5 /fee",
        "pay A 5 /fee x",
        "pay A 5 /fee 1 2",
        "pay A 5 /lock tomorrow",
        "pay A 5 half/half",
        "pay A 5 gift/fee 1",
        "pay A 5 /publicly",
        "pay A 00000000000000000000000016",
        "pay A 5 /fee 12345678901234567890123456",
        "pay A 5 two\nlines",
    ] {
        assert_eq!(on_input(line), Parsed::Help(HelpTopic::Pay), "{:?}", line);
    }

    // The amount is read before what stands behind it.
    assert_eq!(
        on_input("pay A 12345678901234567890123456"),
        Parsed::Complain {
            what: Complaint::InvalidAmount {
                text: Span { start: 6, end: 31 },
                error: MoneyError::PosOverflow
            },
            topic: HelpTopic::Pay
        }
    );
    assert_eq!(payment("pay A 0000000000000000000000001"), ("A".into(), 1, 1000, "".into(), false));
    let line = "pay A ___ gift";
    assert_eq!(
        on_input(line),
        Parsed::Complain {
            what: Complaint::InvalidAmount { text: Span { start: 6, end: 9 }, error: MoneyError::Empty },
            topic: HelpTopic::Pay
        }
    );
    let line = "pay A 9223372036854775808";
    match on_input(line) {
        Parsed::Complain { what: Complaint::InvalidAmount { text, error }, topic } => {
            assert_eq!(cut(line, text), "9223372036854775808");
            assert_eq!((error, topic), (MoneyError::PosOverflow, HelpTopic::Pay));
        }
        other => panic!("{:?}", other),
    }
    let line = "pay A 5 /fee _";
    match on_input(line) {
        Parsed::Complain { what: Complaint::InvalidFee { text, error }, topic } => {
            assert_eq!(cut(line, text), "_");
            assert_eq!((error, topic), (MoneyError::Empty, HelpTopic::Pay));
        }
        other => panic!("{:?}", other),
    }
}

#[test]
fn msg_and_net_commands() {
    assert_eq!(payment("msg 9af hello there"), ("9af".into(), 0, 1000, "hello there".into(), false));
    assert_eq!(on_input("msg 9af"), Parsed::Help(HelpTopic::Msg));
    assert_eq!(on_input("msg 9aG hello"), Parsed::Help(HelpTopic::Msg));
    assert_eq!(on_input("msg  hello"), Parsed::Help(HelpTopic::Msg));

    let line = "net publish chat  good morning";
    match on_input(line) {
        Parsed::Send(Request::PublishBroadcast { topic, data }) => {
            assert_eq!((cut(line, topic), cut(line, data)), ("chat".into(), "good morning".into()));
        }
        other => panic!("{:?}", other),
    }
    assert_eq!(on_input("net publish chat"), Parsed::Help(HelpTopic::Publish));
    assert_eq!(on_input("net publish ch-at x"), Parsed::Help(HelpTopic::Publish));

    let line = "net send 0a1b chat hi you";
    match on_input(line) {
        Parsed::Send(Request::SendUnicast { to, topic, data }) => {
            assert_eq!(cut(line, to), "0a1b");
            assert_eq!(cut(line, topic), "chat");
            assert_eq!(cut(line, data), "hi you");
        }
        other => panic!("{:?}", other),
    }
    assert_eq!(on_input("net send 0a1b chat"), Parsed::Help(HelpTopic::Send));
    assert_eq!(on_input("net send 0A1B chat hi"), Parsed::Help(HelpTopic::Send));
    assert_eq!(on_input("net send"), Parsed::Help(HelpTopic::General));

    let line = "validate certificate 0a spEnder Recipient1 ff00";
    match on_input(line) {
        Parsed::Send(Request::ValidateCertificate { utxo, spender, recipient, rvalue }) => {
            assert_eq!(cut(line, utxo), "0a");
            assert_eq!(cut(line, spender), "spEnder");
            assert_eq!(cut(line, recipient), "Recipient1");
            assert_eq!(cut(line, rvalue), "ff00");
        }
        other => panic!("{:?}", other),
    }
    for line in [
        "validate certificate 0a b c",
        "validate certificate 0a b c xyz",
        "validate certificate 0a b c ff more",
        "validate certificate  ?",
    ] {
        assert_eq!(on_input(line), Parsed::Help(HelpTopic::ValidateCertificate), "{:?}", line);
    }
}

#[test]
fn staking_commands() {
    assert_eq!(on_input("stake 1_000"), Parsed::Send(Request::Stake { amount: 1000, payment_fee: 1000 }));
    assert_eq!(on_input("stake remote 5"), Parsed::Send(Request::StakeRemote { amount: 5, payment_fee: 1000 }));
    assert_eq!(on_input("unstake 7"), Parsed::Send(Request::Unstake { amount: 7, payment_fee: 1000 }));
    assert_eq!(on_input("stake five"), Parsed::Help(HelpTopic::Stake));
    assert_eq!(on_input("stake 5 6"), Parsed::Help(HelpTopic::Stake));
    assert_eq!(on_input("stake remote x"), Parsed::Help(HelpTopic::StakeRemote));
    assert_eq!(on_input("unstake x"), Parsed::Help(HelpTopic::Unstake));
    assert_eq!(on_input("stake 12345678901234567890123456"), Parsed::Help(HelpTopic::Stake));
    // `stake all` goes before `stake AMOUNT`.
    assert_eq!(on_input("stake allx"), Parsed::Send(Request::StakeAll { payment_fee: 1000 }));
    assert_eq!(
        on_input("stake _"),
        Parsed::Complain { what: Complaint::Money { error: MoneyError::Empty }, topic: HelpTopic::Pay }
    );
    assert_eq!(
        on_input("stake remote 9999999999999999999"),
        Parsed::Complain { what: Complaint::Money { error: MoneyError::PosOverflow }, topic: HelpTopic::Pay }
    );
    assert_eq!(
        on_input("unstake __"),
        Parsed::Complain { what: Complaint::Money { error: MoneyError::Empty }, topic: HelpTopic::Unstake }
    );
}

#[test]
fn block_commands() {
    assert_eq!(on_input("show block 12"), Parsed::Send(Request::MacroBlockInfo { epoch: 12 }));
    assert_eq!(on_input("show block12"), Parsed::Send(Request::MacroBlockInfo { epoch: 12 }));
    assert_eq!(on_input("show block 12 3"), Parsed::Send(Request::MicroBlockInfo { epoch: 12, offset: 3 }));
    assert_eq!(
        on_input("show block 18446744073709551615 4294967295"),
        Parsed::Send(Request::MicroBlockInfo { epoch: u64::MAX, offset: u32::MAX })
    );
    assert_eq!(on_input("show block 18446744073709551616"), Parsed::Fail(InputError::NumberTooLarge));
    assert_eq!(on_input("show block 1 4294967296"), Parsed::Fail(InputError::NumberTooLarge));
    assert_eq!(on_input("show block"), Parsed::Help(HelpTopic::ShowBlock));
    assert_eq!(on_input("show block x"), Parsed::Help(HelpTopic::ShowBlock));
    assert_eq!(on_input("show block 1 2 3"), Parsed::Help(HelpTopic::ShowBlock));
    assert_eq!(on_input("show block 1_0"), Parsed::Help(HelpTopic::ShowBlock));
    assert_eq!(on_input("subscribe chain 4"), Parsed::Send(Request::SubscribeChain { epoch: 4, offset: 0 }));
    assert_eq!(on_input("subscribe chain 4 2"), Parsed::Send(Request::SubscribeChain { epoch: 4, offset: 2 }));
    assert_eq!(on_input("subscribe chain"), Parsed::Help(HelpTopic::SubscribeChain));
    assert_eq!(on_input("subscribe chain 99999999999999999999"), Parsed::Fail(InputError::NumberTooLarge));
}

#[test]
fn use_and_history() {
    let line = " use  acc7 ";
    match on_input(line) {
        Parsed::Use { account_id } => assert_eq!(cut(line, account_id), "acc7"),
        other => panic!("{:?}", other),
    }
    assert_eq!(on_input("use a b"), Parsed::Help(HelpTopic::Use));
    assert_eq!(on_input("use #1"), Parsed::Help(HelpTopic::Use));
    let line = "show history 15days 2min";
    match on_input(line) {
        Parsed::History { since } => {
            assert_eq!(cut(line, since), " 15days 2min");
        }
        other => panic!("{:?}", other),
    }
    match on_input("show history") {
        Parsed::History { since } => assert_eq!(since.start, since.end),
        other => panic!("{:?}", other),
    }
}

#[test]
fn time_spans_hold_short_numbers() {
    assert!(readable(""));
    assert!(readable("15days 2min 2s"));
    assert!(readable("15days 2min 2s 500ms 123456ns"));
    assert!(readable("2018-01-01T12:53:00Z"));
    assert!(readable("999999999s"));
    // A number of ten digits is too long, also where white space parts it.
    assert!(!readable("1234567890s"));
    assert!(!readable("12345 67890s"));
    assert!(!readable("18446744073709551615s 1000000000ns"));
    assert!(!readable("184467440 737095516 15s 1 000000000ns"));
    // A unit or the point of a fraction ends a number.
    assert!(readable("123456789s123456789ms"));
    assert!(readable("123456789.123456789s"));
    // No more than a hundred numbers.
    assert!(readable(&"1s ".repeat(100)));
    assert!(!readable(&"1s ".repeat(101)));

    assert_eq!(read_duration("2min 2s"), Some((122, 0)));
    assert_eq!(read_duration("1s 500ms"), Some((1, 500_000_000)));
    assert_eq!(read_duration("1 000s"), Some((1_000, 0)));
    assert_eq!(read_duration("4.2s"), Some((4, 200_000_000)));
    assert_eq!(
        read_duration("15days 2min 2s 500ms 123456ns"),
        Some((15 * 86_400 + 122, 500_123_456))
    );
    assert_eq!(read_duration("999999999y"), Some((999_999_999 * 31_557_600, 0)));
    assert_eq!(read_duration(&"1s ".repeat(100)), Some((100, 0)));
    assert_eq!(read_duration(&"1s ".repeat(101)), None);
    assert_eq!(read_duration("1234567890s"), None);
    assert_eq!(read_duration("18446744073709551615s 1000000000ns"), None);
    assert_eq!(read_duration("184467440 737095516 15s 1 000000000ns"), None);
    assert_eq!(read_duration("2018-01-01T12:53:00Z"), None);
    assert_eq!(read_duration("soon"), None);
    let now = 1_000_000_000_000;
    assert_eq!(parse_past_datetime("18446744073709551615s 1000000000ns", now), None);
    assert_eq!(parse_past_datetime("1234567890s", now), None);
    assert_eq!(parse_past_datetime("999999999s", u64::MAX), Some(u64::MAX - 999_999_999_000));
    assert_eq!(parse_past_datetime("999999999s", now), Some(now - 999_999_999_000));
    assert_eq!(parse_past_datetime("999999999min", now), Some(0));
}

#[test]
fn past_points_in_time() {
    let now = 1_000_000_000_000;
    assert_eq!(parse_past_datetime("2min 2s", now), Some(now - 122_000));
    assert_eq!(parse_past_datetime("15days", now), Some(now - 15 * 86_400_000));
    assert_eq!(parse_past_datetime("1ms", 0), Some(0));
    assert_eq!(parse_past_datetime("2018-01-01T12:53:00Z", now), Some(1_514_811_180_000));
    assert_eq!(parse_past_datetime("2018-01-01T12:53:00.250Z", now), Some(1_514_811_180_250));
    assert_eq!(parse_past_datetime("yesterday", now), None);
    assert_eq!(parse_past_datetime("", now), None);
    assert_eq!(past_time(Some((1, 500_000_000)), Some((9, 0)), 10_000), Some(8_500));
    assert_eq!(past_time(Some((11, 0)), None, 10_000), Some(0));
    assert_eq!(past_time(None, Some((2, 999_999_999)), 0), Some(2_999));
    assert_eq!(past_time(None, Some((u64::MAX, 0)), 0), Some(u64::MAX));
    assert_eq!(past_time(None, None, 5), None);
    let line = "show history 1h";
    assert_eq!(history_start(line, Span { start: 13, end: 15 }, now), Some(now - 3_600_000));
    assert_eq!(history_start(line, Span { start: 12, end: 12 }, now), Some(now - 86_400_000));
    assert_eq!(history_start(line, Span { start: 12, end: 12 }, 5), Some(0));
    assert_eq!(history_start(line, Span { start: 0, end: 4 }, now), None);
}

#[test]
fn formatter_and_resolver() {
    assert_eq!(Formatter::parse("yaml"), Some(Formatter::YAML));
    assert_eq!(Formatter::parse("json"), Some(Formatter::JSON));
    assert_eq!(Formatter::parse("xml"), None);
    assert_eq!(Formatter::parse("YAML"), None);
    assert_eq!(Formatter::parse("yaml "), None);

    let mut r = ChainNameResolver::new(None);
    assert_eq!(r.try_chain_name_resolve(false), ResolverStep::AwaitConnection);
    assert!(matches!(r, ChainNameResolver::NotSet));
    assert_eq!(r.try_chain_name_resolve(true), ResolverStep::SendRequest);
    assert!(matches!(r, ChainNameResolver::Resolving));
    assert_eq!(r.try_chain_name_resolve(true), ResolverStep::AwaitResponse);
    r.on_chain_name("testnet".to_string());
    assert_eq!(r.try_chain_name_resolve(false), ResolverStep::Ready);
    assert!(matches!(r, ChainNameResolver::Known(ref n) if n == "testnet"));
    let mut r = ChainNameResolver::new(Some("dev".to_string()));
    assert_eq!(r.try_chain_name_resolve(false), ResolverStep::Ready);
}

#[test]
fn formatter_from_str_and_resolver_from() {
    assert_eq!("yaml".parse::<Formatter>(), Ok(Formatter::YAML));
    assert_eq!("json".parse::<Formatter>(), Ok(Formatter::JSON));
    assert_eq!("toml".parse::<Formatter>(), Err(()));
    assert!(matches!(ChainNameResolver::from(None), ChainNameResolver::NotSet));
    assert!(matches!(ChainNameResolver::from(Some("dev".to_string())), ChainNameResolver::Known(ref n) if n == "dev"));
}
