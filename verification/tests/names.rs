use plasma_protocol::{
    no_confusable_italics, slice_up_to_bytes, slice_up_to_chars, trim_and_slice_up_to,
    DomainName, InvalidDomainName, NexusPath, NickName, PlayerAlias, Referrer, ServerFailureDiagnostic,
    TeamName,
};

#[test]
fn test_referrer_crazygames() {
    assert_eq!(
        Referrer::from_hostname("crazygames.mk48.io", "mk48.io"),
        Some(Referrer::from_str("crazygames").unwrap())
    );
}

#[test]
fn test_referrer_localhost() {
    assert_eq!(
        Referrer::from_hostname("ads.localhost:8080", "mk48.io"),
        Some(Referrer::from_str("ads").unwrap())
    );
}

#[test]
fn test_referrer_other() {
    assert_eq!(Referrer::new("http://foo.bar.com").unwrap().as_str(), "bar");
    assert_eq!(Referrer::new("baz.xyz").unwrap().as_str(), "baz");
    assert_eq!(Referrer::new("foo.com.uk").unwrap().as_str(), "foo");
    assert_eq!(Referrer::new("com.uk").unwrap().as_str(), "com");
    assert_eq!(
        Referrer::new("https://one.two.three.four/five.html").unwrap().as_str(),
        "three"
    );
    assert_eq!(Referrer::new(""), None);
}

#[test]
fn test_team_name() {
    assert_eq!(TeamName::new_sanitized("1234567").as_str(), "123456");
    assert_eq!(TeamName::new_sanitized("\u{276e}\u{2730}\u{276f}").as_str(), "\u{276e}\u{2730}\u{276f}");
    assert_eq!(TeamName::new_sanitized("\u{276e}\u{2730}\u{276f}").as_str(), "\u{276e}\u{2730}\u{276f}");
    assert_eq!(TeamName::new_sanitized("[foo").as_str(), "foo");
    assert_eq!(TeamName::new_sanitized("foo]]").as_str(), "foo");
    assert_eq!(TeamName::new_sanitized("").as_str(), "");
    assert_eq!(TeamName::new_sanitized("[ ]").as_str(), "");
}

#[test]
fn names_are_trimmed_to_their_width() {
    // One ligature that is wider than ten letters m leaves nothing of a team
    // name, which may be eight wide, and nothing of an alias, which may be fourteen
    // wide, once a second one follows.
    assert_eq!(TeamName::new_sanitized("\u{fdfd}").as_str(), "");
    assert_eq!(PlayerAlias::new_sanitized("\u{fdfd}\u{fdfd}").as_str(), "\u{fdfd}");
    assert_eq!(TeamName::new_sanitized("iiiiii").as_str(), "iiiiii");
}

#[test]
fn referrer_rules() {
    assert_eq!(Referrer::from_hostname("www.mk48.io", "mk48.io"), None);
    assert_eq!(Referrer::from_hostname("12.mk48.io", "mk48.io"), None);
    assert_eq!(Referrer::from_hostname("ads.kiomet.com", "mk48.io"), None);
    assert_eq!(Referrer::from_hostname("localhost", "mk48.io"), None);
    assert_eq!(Referrer::from_hostname("x12.mk48.io:443", "mk48.io").unwrap().as_str(), "x12");
    assert_eq!(Referrer::from_str("  ads \n").unwrap().as_str(), "ads");
    assert_eq!(Referrer::from_str("seventeen_letters").unwrap().as_str(), "seventeen_letter");
    assert_eq!(Referrer::new("localhost").unwrap().as_str(), "localhost");
    assert_eq!(Referrer::new("ftp://a.co/x").unwrap().as_str(), "a");
    assert_eq!(Referrer::new("b.a.co.uk").unwrap().as_str(), "a");
    assert_eq!(Referrer::new("://"), None);
    assert_eq!(Referrer::new("x.y").unwrap().to_string(), "x");
}

#[test]
fn slicing() {
    assert_eq!(slice_up_to_bytes("h\u{e9}llo", 2), "h");
    assert_eq!(slice_up_to_bytes("h\u{e9}llo", 3), "h\u{e9}");
    assert_eq!(slice_up_to_bytes("h\u{e9}llo", 0), "");
    assert_eq!(slice_up_to_bytes("h\u{e9}llo", 99), "h\u{e9}llo");
    assert_eq!(slice_up_to_chars("h\u{e9}llo", 2), "h\u{e9}");
    assert_eq!(slice_up_to_chars("h\u{e9}llo", 0), "");
    assert_eq!(slice_up_to_chars("h\u{e9}llo", 5), "h\u{e9}llo");
    assert_eq!(slice_up_to_chars("h\u{e9}llo", 6), "h\u{e9}llo");
    assert_eq!(trim_and_slice_up_to("  h\u{e9}llo  ", 3), "h\u{e9}");
    assert_eq!(no_confusable_italics("\u{1d622}\u{1d63b}\u{1d608}\u{1d621}x\u{1d63c}"), "azAZx\u{1d63c}");
    assert_eq!(no_confusable_italics("plain"), "plain");
}

#[test]
fn domain_names() {
    assert_eq!(DomainName::from_str("mk48.io").unwrap().as_str(), "mk48.io");
    assert_eq!(DomainName::from_str("mk48"), Err(InvalidDomainName::MissingPart));
    assert_eq!(DomainName::from_str(".io"), Err(InvalidDomainName::MissingPart));
    assert_eq!(DomainName::from_str("mk48."), Err(InvalidDomainName::MissingPart));
    assert_eq!(DomainName::from_str("mk_48.io"), Err(InvalidDomainName::InvalidCharacter('_')));
    assert_eq!(DomainName::from_str("a-b_c"), Err(InvalidDomainName::InvalidCharacter('-')));
    assert_eq!(DomainName::from_str("a.twentyninecharacterslong12345"), Err(InvalidDomainName::TooLong));
    assert!(DomainName::new("anything at all").is_some());
    assert!(DomainName::new("twentyninecharacterslong123456").is_none());
    assert!(DomainName::from_str("a.b").unwrap().same(&DomainName::new("a.b").unwrap()));
    assert_eq!(NexusPath::from_str("/settings").unwrap().to_string(), "/settings");
    assert!(NexusPath::from_str("a path that is longer than thirty-two bytes").is_err());
    assert_eq!(ServerFailureDiagnostic::new("disk full").unwrap().as_str(), "disk full");
    assert!(ServerFailureDiagnostic::new(&"x".repeat(61)).is_none());
}

#[test]
fn aliases() {
    assert_eq!(PlayerAlias::default().as_str(), "Guest");
    assert_eq!(PlayerAlias::authority().as_str(), "Server");
    assert_eq!(PlayerAlias::unknown().as_str(), "???");
    assert_eq!(PlayerAlias::capacity(), 12);
    assert_eq!(PlayerAlias::new_unsanitized("thirteenchars").as_str(), "thirteenchar");
    assert_eq!(PlayerAlias::new_input_sanitized(" spaced ").as_str(), " spaced ");
    assert_eq!(PlayerAlias::new_sanitized("  Bob  ").as_str(), "Bob");
    assert_eq!(PlayerAlias::new_sanitized("").as_str(), "Guest");
    assert_eq!(PlayerAlias::new_sanitized("   ").as_str(), "Guest");
    assert_eq!(PlayerAlias::new_sanitized("[team] Bob").as_str(), "<team> Bob");
    assert_eq!(PlayerAlias::new_sanitized("Bob [1]").as_str(), "Bob [1]");
    assert_eq!(PlayerAlias::new_sanitized("\u{1d623}\u{1d630}\u{1d623}").as_str(), "bob");
    assert_ne!(PlayerAlias::new_sanitized("shit").as_str(), "shit");
    assert_eq!(PlayerAlias::new_sanitized("mmmmmmmmmmmmmmmmmm").as_str(), "mmmmmmmmmmmm");
    assert_eq!(PlayerAlias::new_unsanitized("Bob").sanitized().as_str(), "Bob");
    let alias = PlayerAlias::new_unsanitized("Bob");
    assert_eq!(alias.fmt_with_team_name(None), "Bob");
    assert_eq!(alias.fmt_with_team_name(Some(TeamName::new_unsanitized("red"))), "[red] Bob");
    assert!(alias.same(&PlayerAlias::from_str("Bob").unwrap()));
    assert!(PlayerAlias::from_str("thirteenchars").is_err());
    let options = [
        "Guest", "BestGuest", "BestGuestern", "Guestament", "Guestavo", "Guestbound",
        "GuestHouse", "Guestify", "GuestInPeace", "Guestnut", "GuestWestern", "Proguest",
        "BlessedGuest", "EnderGuest", "GuestControl", "SafetyGuest", "CourtGuester",
        "Southguest", "BirdsGuest", "WildGuest", "AcidGuest", "Guestival", "Lifeguest",
        "Guestimate", "Guesture", "Sugguest", "Diguest", "Maniguest",
    ];
    for _ in 0..50 {
        let guest = PlayerAlias::random_guest();
        assert!(options.contains(&guest.as_str()));
    }
    assert_eq!(NickName::new("thirteenchars").as_str(), "thirteenchar");
    assert_eq!(TeamName::new_input_sanitized("1234567").as_str(), "123456");
    assert_eq!(TeamName::new_input_sanitized(" 12 ").as_str(), " 12 ");
    assert!(TeamName::from_str("red").unwrap().same(&TeamName::new_unsanitized("red")));
}
