//! The `spotify` trigger: which kind of resource a link names, and how a
//! resource is described.

use vstd::prelude::*;
use vstd::string::*;
use crate::text::{decimal, digit_char, join, joined, push_char, push_decimal, str_eq};

verus! {

/// The kinds of resources that a link can name.
#[derive(Debug, Clone, Copy, PartialEq, Eq, Structural)]
pub enum ResourceKind {
    Track,
    Artist,
    Album,
    Playlist,
}

/// What is known of a resource.
pub enum Resource {
    Track { artists: Vec<String>, name: String, album: String, secs: u64 },
    Artist { name: String, genres: Vec<String> },
    /// An album with the number of its tracks and the length in seconds of each listed track.
    Album { name: String, total: u32, release_date: String, durations: Vec<u64> },
    /// A playlist with the length in seconds of each item, `None` for an item that cannot be played.
    Playlist { name: String, items: Vec<Option<u64>>, description: Option<String> },
}

/// Splits a number of seconds into whole minutes and the seconds left over.
pub fn calculate_playtime(secs: u64) -> (r: (u64, u64))
    ensures
        r.0 == secs / 60,
        r.1 == secs % 60,
{
    let dur_min: u64 = secs / 60;
    let dur_sec: u64 = secs - dur_min * 60;
    (dur_min, dur_sec)
}

/// The kind of resource that the word `tp` of a link names.
pub fn resource_kind(tp: &str) -> (r: Option<ResourceKind>)
    ensures
        r == if tp@ == "track"@ {
            Some(ResourceKind::Track)
        } else if tp@ == "artist"@ {
            Some(ResourceKind::Artist)
        } else if tp@ == "album"@ {
            Some(ResourceKind::Album)
        } else if tp@ == "playlist"@ {
            Some(ResourceKind::Playlist)
        } else {
            None
        },
{
    if str_eq(tp, "track") {
        Some(ResourceKind::Track)
    } else if str_eq(tp, "artist") {
        Some(ResourceKind::Artist)
    } else if str_eq(tp, "album") {
        Some(ResourceKind::Album)
    } else if str_eq(tp, "playlist") {
        Some(ResourceKind::Playlist)
    } else {
        None
    }
}

/// The answer to a link that names no known kind of resource.
pub fn invalid_resource() -> (text: String)
    ensures
        text@ == "\x037[Spotify]\x03 Error: Invalid resource type"@,
{
    "\x037[Spotify]\x03 Error: Invalid resource type".to_owned()
}

/// The sum of some lengths.
pub open spec fn total(durations: Seq<u64>) -> nat
    decreases durations.len(),
{
    if durations.len() == 0 {
        0
    } else {
        (total(durations.drop_last()) + durations.last()) as nat
    }
}

/// The lengths of the items that can be played.
pub open spec fn playable(items: Seq<Option<u64>>) -> Seq<u64>
    decreases items.len(),
{
    if items.len() == 0 {
        Seq::empty()
    } else {
        match items.last() {
            Some(d) => playable(items.drop_last()).push(d),
            None => playable(items.drop_last()),
        }
    }
}

/// A sum as far as 64 bits hold it.
pub open spec fn held(sum: nat) -> u64 {
    if sum <= u64::MAX {
        sum as u64
    } else {
        u64::MAX
    }
}

/// `secs` seconds as minutes, a colon, and seconds in two digits.
pub open spec fn playtime_text(secs: u64) -> Seq<char> {
    decimal((secs / 60) as nat) + ":"@ + seq![
        digit_char(((secs % 60) / 10) as nat),
        digit_char(((secs % 60) % 10) as nat),
    ]
}

/// The description of a track.
pub open spec fn track_text(artists: Seq<Seq<char>>, name: Seq<char>, album: Seq<char>, secs: u64) -> Seq<
    char,
> {
    "\x037[Spotify]\x03 Track: \x039\""@ + joined(artists, ", "@) + "\"\x03 - \x039\""@ + name
        + "\" \x0311|\x03 Album: \x039\""@ + album + "\" \x0311|\x03 Length:\x0315 "@
        + playtime_text(secs) + " \x0311|"@
}

/// The description of an artist.
pub open spec fn artist_text(name: Seq<char>, genres: Seq<Seq<char>>) -> Seq<char> {
    "\x037[Spotify]\x03 Artist: \x039\""@ + name + "\" \x0311|\x03 Genres:\x039 "@ + joined(
        genres,
        ", "@,
    ) + " \x0311|"@
}

/// The description of an album.
pub open spec fn album_text(name: Seq<char>, tracks: u32, release_date: Seq<char>, secs: u64) -> Seq<
    char,
> {
    "\x037[Spotify]\x03 Album: \x039\""@ + name + "\" \x0311|\x03 Tracks:\x0315 "@ + decimal(
        tracks as nat,
    ) + " \x0311|\x03 Release date:\x039 "@ + release_date + " \x0311|\x03 Length:\x0315 "@
        + playtime_text(secs) + " \x0311|"@
}

/// The description of a playlist.
pub open spec fn playlist_text(name: Seq<char>, tracks: nat, secs: u64, description: Seq<char>) -> Seq<
    char,
> {
    "\x037[Spotify]\x03 Playlist: \x039\""@ + name + "\" \x0311|\x03 Tracks/Episodes:\x0315 "@
        + decimal(tracks) + " \x0311|\x03 Length:\x0315 "@ + playtime_text(secs)
        + " \x0311|\x03 Description: \x039\""@ + description + "\" \x0311|"@
}

/// The texts held by a sequence of strings.
pub open spec fn names_of(v: Seq<String>) -> Seq<Seq<char>> {
    Seq::new(v.len(), |i: int| v[i]@)
}

/// The description of a resource. Lengths are given in minutes and
/// seconds; the length of an album or a playlist is the sum of the lengths of
/// its tracks, as far as 64 bits hold it.
pub open spec fn described(r: Resource) -> Seq<char> {
    match r {
        Resource::Track { artists, name, album, secs } => track_text(
            names_of(artists@),
            name@,
            album@,
            secs,
        ),
        Resource::Artist { name, genres } => artist_text(name@, names_of(genres@)),
        Resource::Album { name, total: tracks, release_date, durations } => album_text(
            name@,
            tracks,
            release_date@,
            held(total(durations@)),
        ),
        Resource::Playlist { name, items, description } => playlist_text(
            name@,
            playable(items@).len(),
            held(total(playable(items@))),
            match description {
                Some(d) => d@,
                None => "<empty>"@,
            },
        ),
    }
}

/// Appends a length in minutes and seconds.
fn push_playtime(text: &mut String, secs: u64)
    ensures
        final(text)@ == old(text)@ + playtime_text(secs),
{
    let playtime = calculate_playtime(secs);
    push_decimal(text, playtime.0);
    text.append(":");
    let tens: u8 = (playtime.1 / 10) as u8;
    let ones: u8 = (playtime.1 % 10) as u8;
    push_char(text, (48u8 + tens) as char);
    push_char(text, (48u8 + ones) as char);
    assert(text@ =~= old(text)@ + playtime_text(secs));
}

/// The sum of `durations`, as far as 64 bits hold it.
fn sum_of(durations: &Vec<u64>) -> (sum: u64)
    ensures
        sum == held(total(durations@)),
{
    let mut sum: u64 = 0;
    let mut i: usize = 0;
    while i < durations.len()
        invariant
            i <= durations.len(),
            sum == held(total(durations@.take(i as int))),
        decreases durations.len() - i,
    {
        proof {
            assert(durations@.take(i + 1).drop_last() =~= durations@.take(i as int));
            assert(durations@.take(i + 1).last() == durations@[i as int]);
        }
        sum = sum.saturating_add(durations[i]);
        i += 1;
    }
    assert(durations@.take(i as int) =~= durations@);
    sum
}

/// The lengths of the items that can be played.
fn playable_of(items: &Vec<Option<u64>>) -> (r: Vec<u64>)
    ensures
        r@ == playable(items@),
{
    let mut r: Vec<u64> = Vec::new();
    let mut i: usize = 0;
    while i < items.len()
        invariant
            i <= items.len(),
            r@ == playable(items@.take(i as int)),
        decreases items.len() - i,
    {
        proof {
            assert(items@.take(i + 1).drop_last() =~= items@.take(i as int));
            assert(items@.take(i + 1).last() == items@[i as int]);
        }
        match items[i] {
            Some(d) => r.push(d),
            None => {},
        }
        i += 1;
    }
    assert(items@.take(i as int) =~= items@);
    r
}

/// Describes a resource.
pub fn describe(resource: &Resource) -> (text: String)
    ensures
        text@ == described(*resource),
{
    match resource {
        Resource::Track { artists, name, album, secs } => {
            let mut text = "\x037[Spotify]\x03 Track: \x039\"".to_owned();
            let list = join(artists, ", ");
            text.append(list.as_str());
            text.append("\"\x03 - \x039\"");
            text.append(name.as_str());
            text.append("\" \x0311|\x03 Album: \x039\"");
            text.append(album.as_str());
            text.append("\" \x0311|\x03 Length:\x0315 ");
            push_playtime(&mut text, *secs);
            text.append(" \x0311|");
            assert(text@ =~= track_text(names_of(artists@), name@, album@, *secs));
            text
        },
        Resource::Artist { name, genres } => {
            let mut text = "\x037[Spotify]\x03 Artist: \x039\"".to_owned();
            text.append(name.as_str());
            text.append("\" \x0311|\x03 Genres:\x039 ");
            let list = join(genres, ", ");
            text.append(list.as_str());
            text.append(" \x0311|");
            assert(text@ =~= artist_text(name@, names_of(genres@)));
            text
        },
        Resource::Album { name, total: tracks, release_date, durations } => {
            let mut text = "\x037[Spotify]\x03 Album: \x039\"".to_owned();
            text.append(name.as_str());
            text.append("\" \x0311|\x03 Tracks:\x0315 ");
            push_decimal(&mut text, *tracks as u64);
            text.append(" \x0311|\x03 Release date:\x039 ");
            text.append(release_date.as_str());
            text.append(" \x0311|\x03 Length:\x0315 ");
            push_playtime(&mut text, sum_of(durations));
            text.append(" \x0311|");
            assert(text@ =~= album_text(name@, *tracks, release_date@, held(total(durations@))));
            text
        },
        Resource::Playlist { name, items, description } => {
            let lengths = playable_of(items);
            let mut text = "\x037[Spotify]\x03 Playlist: \x039\"".to_owned();
            text.append(name.as_str());
            text.append("\" \x0311|\x03 Tracks/Episodes:\x0315 ");
            push_decimal(&mut text, lengths.len() as u64);
            text.append(" \x0311|\x03 Length:\x0315 ");
            push_playtime(&mut text, sum_of(&lengths));
            text.append(" \x0311|\x03 Description: \x039\"");
            match description {
                Some(d) => text.append(d.as_str()),
                None => text.append("<empty>"),
            }
            text.append("\" \x0311|");
            assert(text@ =~= playlist_text(
                name@,
                playable(items@).len(),
                held(total(playable(items@))),
                match description {
                    Some(d) => d@,
                    None => "<empty>"@,
                },
            ));
            text
        },
    }
}

} // verus!
