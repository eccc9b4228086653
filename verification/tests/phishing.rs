//! The text heuristic exercised on real and crafted messages.

use potatomod::check_is_phishing_link;
use potatomod::SpamReason;

#[test]
fn phishing_test() {
    // false because not a valid URL, scammers seem to be sending URLs to make it seem official.
    assert_eq!(
        check_is_phishing_link(
            "https:// asdiofjiouawejf.dgidfsdfoiwejrowet.gift aowiejroaiwerj"
        ),
        None
    );
    // assert_eq!(
    //     check_is_phishing_link("https://phishinglink-discord.gift/dfoiwejroiwejr"),
    //     Some(SpamReason::UrlDiscordMispell)
    // );
    assert_eq!(
        check_is_phishing_link("http://discord.gift/notphishing"),
        None
    );
    assert_eq!(
        check_is_phishing_link("hey pearl i'd like you to sign my autograph for a gift for a friend on discord.com"),
        None
    );
    // assert_eq!(
    //     check_is_phishing_link("hey check out my spotify free https://spotify.com"),
    //     None
    // );
    // real example, slightly modified
    assert_eq!(
        check_is_phishing_link(
            "@everyone
                :video_game: â€¢ Get Discord Nitro for Free from Steam Store
                Free 3 months Discord Nitro
                :clock630: â€¢ The offer is valid until at 6:00PM on November 30, 2021.
                Personalize your profile, screen share in HD, upgrade your emojis, and more.
                :gem: â€¢ Click to get Nitro: https://discorda.org/welcome"
        ),
        Some(SpamReason::UrlDiscordMispell)
    );

    // example taken from real phishing attempt and slightly modified
    assert_eq!(check_is_phishing_link("@â€‹everyone ðŸ”¥Airdrop Discord FREE NITRO from Steam â€” https://discorcla-app.com/redeem/nitro"), Some(SpamReason::Phishing));

    // Valid discord url
    assert_eq!(
        check_is_phishing_link("hello https://discord.com/test-url-blah i am here"),
        None
    );

    assert_eq!(
        check_is_phishing_link("discord.gg/girls hot girls cool cool cool"),
        Some(SpamReason::SexRelatedTerms)
    )
}

#[test]
fn test_phishing_link_detection() {
    // Phishing tests
    assert_eq!(
        check_is_phishing_link("[Click here](https://phishing.example.com)"),
        None
    );
    assert_eq!(
        check_is_phishing_link("[http://phishing.example.com](https://not-the-same.com)"),
        Some(SpamReason::Phishing)
    );
    assert_eq!(
        check_is_phishing_link("[http://legit.example.com](http://phishing.example.com)"),
        Some(SpamReason::Phishing)
    );
    assert_eq!(
        check_is_phishing_link("[http://evil.com](https://good.com)"),
        Some(SpamReason::Phishing)
    );

    // Discord misspelling tests
    assert_eq!(
        check_is_phishing_link("[Discord](https://disc0rd.com)"),
        Some(SpamReason::UrlDiscordMispell)
    );
    assert_eq!(
        check_is_phishing_link("[Join us](https://discrod.com/server)"),
        Some(SpamReason::UrlDiscordMispell)
    );

    // Negative tests (not spam)
    assert_eq!(
        check_is_phishing_link("[http://example.com](https://example.com)"),
        None
    );
    assert_eq!(
        check_is_phishing_link("[My Link](https://www.example.com)"),
        None
    );
    assert_eq!(
        check_is_phishing_link("[Another Link](https://another.example.com)"),
        None
    );
    assert_eq!(check_is_phishing_link("No link here"), None);
    assert_eq!(
        check_is_phishing_link("[Image](![alt text](image.jpg))"),
        None
    );
    assert_eq!(check_is_phishing_link("[relative path](/path)"), None);
    assert_eq!(
        check_is_phishing_link(
            "<img src=\"https://legit.example.com/image.jpg\" alt=\"Alt Text\">"
        ),
        None
    );

    // Complex URL tests (handle these carefully)
    assert_eq!(
        check_is_phishing_link("[http://example.com/path1/path2](https://example.com/path3)"),
        None
    ); // Different paths, same domain (not always phishing)
    assert_eq!(
        check_is_phishing_link("[http://example.com](https://example.com/path?param=value)"),
        None
    );
    assert_eq!(
        check_is_phishing_link("[http://example.com](https://example.com/#fragment)"),
        None
    );
}
