use uberbot::bot::CommandContext;
use uberbot::bots::title::{Link, Titlebot};
use uberbot::bots::weeb::{get_waifu_pic, waifu_request};
use uberbot::commands::spotify::{
    calculate_playtime, describe, invalid_resource, resource_kind, Resource, ResourceKind,
};
use uberbot::commands::title::Title;
use uberbot::commands::waifu::Waifu;

fn strings(v: &[&str]) -> Vec<String> {
    v.iter().map(|s| s.to_string()).collect()
}

#[test]
fn playtime_is_minutes_and_seconds() {
    assert_eq!(calculate_playtime(0), (0, 0));
    assert_eq!(calculate_playtime(59), (0, 59));
    assert_eq!(calculate_playtime(60), (1, 0));
    assert_eq!(calculate_playtime(185), (3, 5));
    assert_eq!(calculate_playtime(u64::MAX), (u64::MAX / 60, u64::MAX % 60));
}

#[test]
fn links_name_a_kind_of_resource() {
    assert_eq!(resource_kind("track"), Some(ResourceKind::Track));
    assert_eq!(resource_kind("artist"), Some(ResourceKind::Artist));
    assert_eq!(resource_kind("album"), Some(ResourceKind::Album));
    assert_eq!(resource_kind("playlist"), Some(ResourceKind::Playlist));
    assert_eq!(resource_kind("Track"), None);
    assert_eq!(resource_kind(""), None);
    assert_eq!(invalid_resource(), "\x037[Spotify]\x03 Error: Invalid resource type");
}

#[test]
fn track_is_described() {
    let track = Resource::Track {
        artists: strings(&["A", "B"]),
        name: "Song".to_string(),
        album: "Alb".to_string(),
        secs: 185,
    };
    assert_eq!(
        describe(&track),
        format!("\x037[Spotify]\x03 Track: \x039\"{}\"\x03 - \x039\"{}\" \x0311|\x03 Album: \x039\"{}\" \x0311|\x03 Length:\x0315 {}:{:02} \x0311|", "A, B", "Song", "Alb", 3, 5)
    );
}

#[test]
fn artist_is_described() {
    let artist = Resource::Artist { name: "Band".to_string(), genres: strings(&["rock", "pop"]) };
    assert_eq!(
        describe(&artist),
        format!(
            "\x037[Spotify]\x03 Artist: \x039\"{}\" \x0311|\x03 Genres:\x039 {} \x0311|",
            "Band", "rock, pop"
        )
    );
    let plain = Resource::Artist { name: "Solo".to_string(), genres: vec![] };
    assert_eq!(
        describe(&plain),
        "\x037[Spotify]\x03 Artist: \x039\"Solo\" \x0311|\x03 Genres:\x039  \x0311|"
    );
}

#[test]
fn album_is_described() {
    let album = Resource::Album {
        name: "Alb".to_string(),
        total: 12,
        release_date: "2020-01-31".to_string(),
        durations: vec![200, 400, 10],
    };
    assert_eq!(
        describe(&album),
        format!("\x037[Spotify]\x03 Album: \x039\"{}\" \x0311|\x03 Tracks:\x0315 {} \x0311|\x03 Release date:\x039 {} \x0311|\x03 Length:\x0315 {}:{:02} \x0311|", "Alb", 12, "2020-01-31", 10, 10)
    );
}

#[test]
fn playlist_counts_what_can_be_played() {
    let playlist = Resource::Playlist {
        name: "Mix".to_string(),
        items: vec![Some(61), None, Some(3600), None],
        description: None,
    };
    assert_eq!(
        describe(&playlist),
        format!("\x037[Spotify]\x03 Playlist: \x039\"{}\" \x0311|\x03 Tracks/Episodes:\x0315 {} \x0311|\x03 Length:\x0315 {}:{:02} \x0311|\x03 Description: \x039\"{}\" \x0311|", "Mix", 2, 61, 1, "<empty>")
    );
    let told = Resource::Playlist {
        name: "Mix".to_string(),
        items: vec![],
        description: Some("for the road".to_string()),
    };
    assert_eq!(
        describe(&told),
        "\x037[Spotify]\x03 Playlist: \x039\"Mix\" \x0311|\x03 Tracks/Episodes:\x0315 0 \x0311|\x03 Length:\x0315 0:00 \x0311|\x03 Description: \x039\"for the road\" \x0311|"
    );
}

#[test]
fn lengths_stop_at_what_64_bits_hold() {
    let album = Resource::Album {
        name: "X".to_string(),
        total: 2,
        release_date: "d".to_string(),
        durations: vec![u64::MAX, 5],
    };
    assert_eq!(
        describe(&album),
        format!("\x037[Spotify]\x03 Album: \x039\"X\" \x0311|\x03 Tracks:\x0315 2 \x0311|\x03 Release date:\x039 d \x0311|\x03 Length:\x0315 {}:{:02} \x0311|", u64::MAX / 60, u64::MAX % 60)
    );
}

#[test]
fn title_has_a_user_agent() {
    let title = Title::new(None, "1.2.3").ok().expect("the title pattern compiles");
    assert_eq!(title.user_agent(), "uberbot 1.2.3 (reqwest)");
    let title = Title::new(Some("me/1".to_string()), "1.2.3").ok().unwrap();
    assert_eq!(title.user_agent(), "me/1");
}

#[test]
fn pages_are_told_by_their_content_type() {
    let title = Title::new(None, "0").ok().unwrap();
    assert!(title.is_page(None));
    assert!(title.is_page(Some("text/html")));
    assert!(title.is_page(Some("text/html; charset=utf-8")));
    assert!(!title.is_page(Some("image/png")));
    assert!(!title.is_page(Some("TEXT/HTML")));
    assert!(!title.is_page(Some("")));
}

#[test]
fn page_title_is_decoded() {
    let title = Title::new(None, "0").ok().unwrap();
    assert_eq!(
        title.page_title("<html><head><title>Tom &amp; Jerry</title></head>").ok(),
        Some("\x039[Title]\x0311 Tom & Jerry".to_string())
    );
    assert_eq!(
        title.page_title("<title lang=\"en\">a</title><title>b</title>").ok(),
        Some("\x039[Title]\x0311 a".to_string())
    );
    assert_eq!(
        title.page_title("<title>&nosuchentity; x</title>").ok(),
        Some("\x039[Title]\x0311 &nosuchentity; x".to_string())
    );
    assert_eq!(
        title.page_title("<p>nothing</p>").ok(),
        Some("\x039[Title]\x0311 No title".to_string())
    );
    assert_eq!(title.page_title("<title></title>").ok(), Some("\x039[Title]\x0311 ".to_string()));
}

#[test]
fn files_are_described_by_type_and_size() {
    let title = Title::new(None, "0").ok().unwrap();
    assert_eq!(title.file_info("image/png", Some(2053)), "\x039[Title]\x0311 File: image/png; 2kb");
    assert_eq!(title.file_info("image/png", Some(1023)), "\x039[Title]\x0311 File: image/png; 0kb");
    assert_eq!(title.file_info("video/mp4", None), "\x039[Title]\x0311 File: video/mp4; unknownkb");
}

#[test]
fn picture_address_is_read_from_the_answer() {
    assert_eq!(waifu_request("neko"), "https://api.waifu.pics/sfw/neko");
    assert_eq!(
        get_waifu_pic("  {\"url\": \"https://i.waifu.pics/x.png\"}\n").ok(),
        Some(Some("https://i.waifu.pics/x.png".to_string()))
    );
    assert_eq!(get_waifu_pic("{\"message\": \"Not Found\"}").ok(), Some(None));
    assert_eq!(get_waifu_pic("{\"url\": 5}").ok(), Some(None));
    assert_eq!(get_waifu_pic("[1, 2]").ok(), Some(None));
    assert!(get_waifu_pic("not json").is_err());
    assert!(get_waifu_pic("").is_err());
}

#[test]
fn waifu_command_asks_and_answers() {
    let ctx = |content: Option<&str>| CommandContext {
        author: "alice".to_string(),
        content: content.map(|c| c.to_string()),
    };
    assert_eq!(Waifu.request(&ctx(None)), "https://api.waifu.pics/sfw/waifu");
    assert_eq!(Waifu.request(&ctx(Some("neko"))), "https://api.waifu.pics/sfw/neko");
    assert_eq!(Waifu.execute("{\"url\": \"u\"}").ok(), Some("u".to_string()));
    assert_eq!(Waifu.execute("{}").ok(), Some("Invalid API Response.".to_string()));
    assert!(Waifu.execute("<html>").is_err());
}

#[test]
fn links_are_told_apart() {
    let bot = Titlebot;
    match bot.resolve_link("listen: https://open.spotify.com/track/4uLU6hMCjMI75M1A2tKUQC now").ok() {
        Some(Link::Spotify { resource_type, resource_id }) => {
            assert_eq!(resource_type, "track");
            assert_eq!(resource_id, "4uLU6hMCjMI75M1A2tKUQC");
        }
        _ => panic!("expected a Spotify link"),
    }
    match bot.resolve_link("spotify:album:abc123").ok() {
        Some(Link::Spotify { resource_type, resource_id }) => {
            assert_eq!(resource_type, "album");
            assert_eq!(resource_id, "abc123");
        }
        _ => panic!("expected a Spotify link"),
    }
    match bot.resolve_link("see https://example.org/a/b?c=d and more").ok() {
        Some(Link::Page { url }) => assert_eq!(url, "https://example.org/a/b?c=d"),
        _ => panic!("expected a page"),
    }
    assert!(matches!(bot.resolve_link("no link here").ok(), Some(Link::Nothing)));
    assert!(bot.reads(None));
    assert!(bot.reads(Some("text/html; charset=utf-8")));
    assert!(!bot.reads(Some("image/png")));
    assert_eq!(
        bot.page_title("<head><title>Tom &amp; Jerry</title></head>").ok(),
        Some(Some("\x039[Title]\x0311 Tom & Jerry".to_string()))
    );
    assert_eq!(bot.page_title("<title lang=\"en\">x</title>").ok(), Some(None));
    assert_eq!(bot.page_title("nothing").ok(), Some(None));
}
