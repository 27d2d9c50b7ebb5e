//! What a follower of the watcher shows: the active player, and what it says
//! of the track that it plays.
//!
//! A follower learns of the active player from the watcher, and of the track
//! from the player. After each piece of news it shows all that it knows as
//! one line of text.

use crate::constants::PLAYING_STATUS;
use crate::names::{name_of, same_name};
use vstd::prelude::*;

verus! {

/// The text of `s` with a backslash before each double quote.
pub open spec fn escaped(s: Seq<char>) -> Seq<char>
    decreases s.len(),
{
    if s.len() == 0 {
        Seq::empty()
    } else if s.last() == '"' {
        escaped(s.drop_last()) + seq!['\\', '"']
    } else {
        escaped(s.drop_last()).push(s.last())
    }
}

/// Puts a backslash before each double quote of `s`.
pub fn escape(s: &str) -> (out: String)
    ensures
        out@ == escaped(s@),
{
    let n = s.unicode_len();
    let mut out = String::new();
    let mut i: usize = 0;
    assert(s@.subrange(0, 0) =~= Seq::empty());
    while i < n
        invariant
            i <= n,
            n == s@.len(),
            out@ == escaped(s@.subrange(0, i as int)),
        decreases n - i,
    {
        let ghost so_far = s@.subrange(0, i as int);
        let ghost next = s@.subrange(0, i + 1);
        assert(next.drop_last() =~= so_far);
        assert(next.last() == s@[i as int]);
        if s.get_char(i) == '"' {
            proof {
                reveal_strlit("\\\"");
                assert("\\\""@ =~= seq!['\\', '"']);
            }
            out.append("\\\"");
        } else {
            let one = s.substring_char(i, i + 1);
            assert(one@ =~= seq![s@[i as int]]);
            out.append(one);
            assert(out@ =~= escaped(so_far).push(s@[i as int]));
        }
        i += 1;
    }
    assert(s@.subrange(0, n as int) =~= s@);
    out
}

/// The texts `items`, one after the other, with a comma and a space between
/// each two of them.
pub open spec fn joined(items: Seq<Seq<char>>) -> Seq<char>
    decreases items.len(),
{
    if items.len() == 0 {
        Seq::empty()
    } else if items.len() == 1 {
        items[0]
    } else {
        joined(items.drop_last()) + seq![',', ' '] + items.last()
    }
}

/// Joins `items` with a comma and a space between each two of them.
pub fn join(items: &Vec<String>) -> (out: String)
    ensures
        out@ == joined(items.deep_view()),
{
    let ghost all = items.deep_view();
    let mut out = String::new();
    let mut i: usize = 0;
    assert(all.subrange(0, 0) =~= Seq::empty());
    while i < items.len()
        invariant
            i <= items.len(),
            all == items.deep_view(),
            out@ == joined(all.subrange(0, i as int)),
        decreases items.len() - i,
    {
        let ghost so_far = all.subrange(0, i as int);
        let ghost next = all.subrange(0, i + 1);
        assert(next.drop_last() =~= so_far);
        assert(next.last() == items@[i as int]@);
        if i > 0 {
            proof {
                reveal_strlit(", ");
                assert(", "@ =~= seq![',', ' ']);
            }
            out.append(", ");
        } else {
            assert(out@ =~= Seq::empty());
            assert(next[0] == items@[0]@);
        }
        out.append(items[i].as_str());
        i += 1;
    }
    assert(all.subrange(0, i as int) =~= all);
    out
}

/// The character of the digit `d`.
pub open spec fn digit_char(d: int) -> char
    recommends
        0 <= d < 10,
{
    if d == 0 {
        '0'
    } else if d == 1 {
        '1'
    } else if d == 2 {
        '2'
    } else if d == 3 {
        '3'
    } else if d == 4 {
        '4'
    } else if d == 5 {
        '5'
    } else if d == 6 {
        '6'
    } else if d == 7 {
        '7'
    } else if d == 8 {
        '8'
    } else {
        '9'
    }
}

/// The natural number `n` in decimal digits, without leading zeros.
pub open spec fn natural_text(n: nat) -> Seq<char>
    decreases n,
{
    if n < 10 {
        seq![digit_char(n as int)]
    } else {
        natural_text(n / 10).push(digit_char((n % 10) as int))
    }
}

/// The integer `n` in decimal digits, with a minus sign before a negative
/// one.
pub open spec fn decimal_text(n: int) -> Seq<char> {
    if n < 0 {
        seq!['-'] + natural_text((-n) as nat)
    } else {
        natural_text(n as nat)
    }
}

/// The digit `d` as text.
fn digit_str(d: u64) -> (text: &'static str)
    requires
        d < 10,
    ensures
        text@ == seq![digit_char(d as int)],
{
    proof {
        reveal_strlit("0");
        reveal_strlit("1");
        reveal_strlit("2");
        reveal_strlit("3");
        reveal_strlit("4");
        reveal_strlit("5");
        reveal_strlit("6");
        reveal_strlit("7");
        reveal_strlit("8");
        reveal_strlit("9");
    }
    let text = if d == 0 {
        "0"
    } else if d == 1 {
        "1"
    } else if d == 2 {
        "2"
    } else if d == 3 {
        "3"
    } else if d == 4 {
        "4"
    } else if d == 5 {
        "5"
    } else if d == 6 {
        "6"
    } else if d == 7 {
        "7"
    } else if d == 8 {
        "8"
    } else {
        "9"
    };
    assert(text@ =~= seq![digit_char(d as int)]);
    text
}

/// Writes the decimal digits of `n` behind what `out` holds.
fn push_natural(out: &mut String, n: u64)
    ensures
        final(out)@ == old(out)@ + natural_text(n as nat),
    decreases n,
{
    if n >= 10 {
        push_natural(out, n / 10);
    }
    out.append(digit_str(n % 10));
    assert(out@ =~= old(out)@ + natural_text(n as nat));
}

/// The integer `n` in decimal digits, with a minus sign before a negative
/// one.
pub fn decimal(n: i32) -> (out: String)
    ensures
        out@ == decimal_text(n as int),
{
    let mut out = String::new();
    if n < 0 {
        proof {
            reveal_strlit("-");
        }
        out.append("-");
        let wide: i64 = n as i64;
        let size: u64 = (0 - wide) as u64;
        push_natural(&mut out, size);
        assert(out@ =~= seq!['-'] + natural_text((-n) as nat));
    } else {
        push_natural(&mut out, n as u64);
        assert(out@ =~= natural_text(n as nat));
    }
    out
}

/// What a property of a track holds, as far as a follower reads it. A value
/// may be read in more than one way: a small whole number is both signed and
/// unsigned.
pub struct MetaValue {
    /// The value as a text, if it is one.
    pub text: Option<String>,
    /// The value as a list of texts, if it is one.
    pub items: Option<Vec<String>>,
    /// The value as an unsigned number, if it is one.
    pub unsigned: Option<u64>,
    /// The value as a signed number, if it is one.
    pub signed: Option<i64>,
}

/// A property of a track as contracts see it.
pub struct MetaValueModel {
    /// The value as a text, if it is one.
    pub text: Option<Seq<char>>,
    /// The value as a list of texts, if it is one.
    pub items: Option<Seq<Seq<char>>>,
    /// The value as an unsigned number, if it is one.
    pub unsigned: Option<u64>,
    /// The value as a signed number, if it is one.
    pub signed: Option<i64>,
}

impl View for MetaValue {
    type V = MetaValueModel;

    open spec fn view(&self) -> MetaValueModel {
        MetaValueModel {
            text: name_of(self.text),
            items: match self.items {
                Some(items) => Some(items.deep_view()),
                None => None,
            },
            unsigned: self.unsigned,
            signed: self.signed,
        }
    }
}

impl MetaValueModel {
    /// The value as a length of time: the unsigned number if it is one, else
    /// the signed one, cut down to 32 bits.
    pub open spec fn length(self) -> Option<i32> {
        match (self.unsigned, self.signed) {
            (Some(n), _) => Some(n as i32),
            (None, Some(n)) => Some(n as i32),
            (None, None) => None,
        }
    }

    /// The value as a count: the signed number, cut down to 32 bits.
    pub open spec fn count(self) -> Option<i32> {
        match self.signed {
            Some(n) => Some(n as i32),
            None => None,
        }
    }

    /// The value as a text to show: the text itself, or the texts of the list
    /// with commas between them, with each double quote escaped.
    pub open spec fn shown(self) -> Option<Seq<char>> {
        match (self.text, self.items) {
            (Some(text), _) => Some(escaped(text)),
            (None, Some(items)) => Some(escaped(joined(items))),
            (None, None) => None,
        }
    }
}

impl MetaValue {
    /// The value as a length of time: the unsigned number if it is one, else
    /// the signed one, cut down to 32 bits.
    pub fn read_len(&self) -> (length: Option<i32>)
        ensures
            length == self@.length(),
    {
        match (self.unsigned, self.signed) {
            (Some(n), _) => Some(#[verifier::truncate] (n as i32)),
            (None, Some(n)) => Some(#[verifier::truncate] (n as i32)),
            (None, None) => None,
        }
    }

    /// The value as a count: the signed number, cut down to 32 bits.
    pub fn read_count(&self) -> (count: Option<i32>)
        ensures
            count == self@.count(),
    {
        match self.signed {
            Some(n) => Some(#[verifier::truncate] (n as i32)),
            None => None,
        }
    }

    /// The value as a text to show: the text itself, or the texts of the list
    /// with commas between them, with each double quote escaped.
    pub fn read_string(&self) -> (shown: Option<String>)
        ensures
            name_of(shown) == self@.shown(),
    {
        match (&self.text, &self.items) {
            (Some(text), _) => Some(escape(text.as_str())),
            (None, Some(items)) => {
                let all = join(items);
                Some(escape(all.as_str()))
            },
            (None, None) => None,
        }
    }
}

/// What a follower knows, as contracts see it.
pub struct NowPlayingModel {
    /// The active player, empty if there is none.
    pub player_name: Seq<char>,
    /// Whether the player is playing.
    pub playing: bool,
    /// The length of the track.
    pub length: Option<i32>,
    /// The album of the track.
    pub album: Option<Seq<char>>,
    /// The artist of the album.
    pub album_artist: Option<Seq<char>>,
    /// Where the cover of the album is found.
    pub art_url: Option<Seq<char>>,
    /// The title of the track.
    pub title: Option<Seq<char>>,
    /// The number of the track on its disc.
    pub track_number: Option<i32>,
    /// The number of the disc in its album.
    pub disc_number: Option<i32>,
    /// Where the track is found.
    pub url: Option<Seq<char>>,
    /// The artist of the track.
    pub artist: Option<Seq<char>>,
}

/// A number to show: its decimal digits, or nothing where it is not known.
pub open spec fn number_shown(n: Option<i32>) -> Seq<char> {
    match n {
        Some(n) => decimal_text(n as int),
        None => Seq::empty(),
    }
}

/// A text to show: the text, or nothing where it is not known.
pub open spec fn text_shown(text: Option<Seq<char>>) -> Seq<char> {
    match text {
        Some(text) => text,
        None => Seq::empty(),
    }
}

/// A truth value to show.
pub open spec fn truth_shown(b: bool) -> Seq<char> {
    if b {
        "true"@
    } else {
        "false"@
    }
}

impl NowPlayingModel {
    /// What a follower knows of the player `name` before it has heard from
    /// it: nothing of its track, and that it is not playing.
    pub open spec fn fresh(name: Seq<char>) -> NowPlayingModel {
        NowPlayingModel {
            player_name: name,
            playing: false,
            length: None,
            album: None,
            album_artist: None,
            art_url: None,
            title: None,
            track_number: None,
            disc_number: None,
            url: None,
            artist: None,
        }
    }

    /// What is known after the player has announced the playback status
    /// `status`.
    pub open spec fn change_status(self, status: Seq<char>) -> NowPlayingModel {
        NowPlayingModel { playing: status == PLAYING_STATUS@, ..self }
    }

    /// What is known after the player has announced that the property `key`
    /// of its track holds `value`. A property that the follower does not show,
    /// and a value that cannot be read as its property asks, change nothing.
    pub open spec fn set(self, key: Seq<char>, value: MetaValueModel) -> NowPlayingModel {
        if key == "mpris:length"@ {
            match value.length() {
                Some(n) => NowPlayingModel { length: Some(n), ..self },
                None => self,
            }
        } else if key == "xesam:album"@ {
            match value.shown() {
                Some(text) => NowPlayingModel { album: Some(text), ..self },
                None => self,
            }
        } else if key == "xesam:albumArtist"@ {
            match value.shown() {
                Some(text) => NowPlayingModel { album_artist: Some(text), ..self },
                None => self,
            }
        } else if key == "mpris:artUrl"@ {
            match value.shown() {
                Some(text) => NowPlayingModel { art_url: Some(text), ..self },
                None => self,
            }
        } else if key == "xesam:title"@ {
            match value.shown() {
                Some(text) => NowPlayingModel { title: Some(text), ..self },
                None => self,
            }
        } else if key == "xesam:trackNumber"@ {
            match value.count() {
                Some(n) => NowPlayingModel { track_number: Some(n), ..self },
                None => self,
            }
        } else if key == "xesam:discNumber"@ {
            match value.count() {
                Some(n) => NowPlayingModel { disc_number: Some(n), ..self },
                None => self,
            }
        } else if key == "xesam:url"@ {
            match value.shown() {
                Some(text) => NowPlayingModel { url: Some(text), ..self },
                None => self,
            }
        } else if key == "xesam:artist"@ {
            match value.shown() {
                Some(text) => NowPlayingModel { artist: Some(text), ..self },
                None => self,
            }
        } else {
            self
        }
    }

    /// What is known after the player has announced the properties
    /// `entries`, one after the other.
    pub open spec fn set_all(self, entries: Seq<(Seq<char>, MetaValueModel)>) -> NowPlayingModel
        decreases entries.len(),
    {
        if entries.len() == 0 {
            self
        } else {
            self.set_all(entries.drop_last()).set(entries.last().0, entries.last().1)
        }
    }

    /// What is known after a piece of news of the player. News of its
    /// playback status changes that and nothing else; other news changes the
    /// properties of the track.
    pub open spec fn change_metadata(
        self,
        status: Option<Seq<char>>,
        entries: Seq<(Seq<char>, MetaValueModel)>,
    ) -> NowPlayingModel {
        match status {
            Some(status) => self.change_status(status),
            None => self.set_all(entries),
        }
    }

    /// The line that shows what is known.
    pub open spec fn rendered(self) -> Seq<char> {
        "{ \"player\": \""@ + self.player_name + "\", \"playing\": \""@ + truth_shown(
            self.playing,
        ) + "\", \"length\": \""@ + number_shown(self.length) + "\", \"album\": \""@ + text_shown(
            self.album,
        ) + "\", \"album_artist\": \""@ + text_shown(self.album_artist) + "\", \"art_url\": \""@
            + text_shown(self.art_url) + "\", \"title\": \""@ + text_shown(self.title)
            + "\", \"track_number\": \""@ + number_shown(self.track_number)
            + "\", \"disc_number\": \""@ + number_shown(self.disc_number) + "\", \"url\": \""@
            + text_shown(self.url) + "\", \"artist\": \""@ + text_shown(self.artist) + "\" }"@
    }
}

/// The properties of a track, as contracts see them.
pub open spec fn entries_of(entries: Seq<(String, MetaValue)>) -> Seq<(Seq<char>, MetaValueModel)> {
    entries.map_values(|entry: (String, MetaValue)| (entry.0@, entry.1@))
}

/// What a follower knows: the active player, and what it says of the track
/// that it plays.
pub struct NowPlaying {
    /// The active player, empty if there is none.
    pub player_name: String,
    /// Whether the player is playing.
    pub playing: bool,
    /// The length of the track.
    pub length: Option<i32>,
    /// The album of the track.
    pub album: Option<String>,
    /// The artist of the album.
    pub album_artist: Option<String>,
    /// Where the cover of the album is found.
    pub art_url: Option<String>,
    /// The title of the track.
    pub title: Option<String>,
    /// The number of the track on its disc.
    pub track_number: Option<i32>,
    /// The number of the disc in its album.
    pub disc_number: Option<i32>,
    /// Where the track is found.
    pub url: Option<String>,
    /// The artist of the track.
    pub artist: Option<String>,
}

impl View for NowPlaying {
    type V = NowPlayingModel;

    open spec fn view(&self) -> NowPlayingModel {
        NowPlayingModel {
            player_name: self.player_name@,
            playing: self.playing,
            length: self.length,
            album: name_of(self.album),
            album_artist: name_of(self.album_artist),
            art_url: name_of(self.art_url),
            title: name_of(self.title),
            track_number: self.track_number,
            disc_number: self.disc_number,
            url: name_of(self.url),
            artist: name_of(self.artist),
        }
    }
}

impl Default for NowPlaying {
    fn default() -> (known: Self)
        ensures
            known@ == NowPlayingModel::fresh(Seq::empty()),
    {
        NowPlaying::new()
    }
}

/// Writes a number to show behind what `out` holds.
fn push_number(out: &mut String, n: &Option<i32>)
    ensures
        final(out)@ == old(out)@ + number_shown(*n),
{
    match n {
        Some(n) => {
            let digits = decimal(*n);
            out.append(digits.as_str());
        },
        None => {
            assert(out@ + Seq::<char>::empty() =~= out@);
        },
    }
}

/// Writes a text to show behind what `out` holds.
fn push_text(out: &mut String, text: &Option<String>)
    ensures
        final(out)@ == old(out)@ + text_shown(name_of(*text)),
{
    match text {
        Some(text) => {
            out.append(text.as_str());
        },
        None => {
            assert(out@ + Seq::<char>::empty() =~= out@);
        },
    }
}

impl NowPlaying {
    /// What a follower knows before it has heard of any player.
    pub fn new() -> (known: Self)
        ensures
            known@ == NowPlayingModel::fresh(Seq::empty()),
    {
        NowPlaying {
            player_name: String::new(),
            playing: false,
            length: None,
            album: None,
            album_artist: None,
            art_url: None,
            title: None,
            track_number: None,
            disc_number: None,
            url: None,
            artist: None,
        }
    }

    /// Takes note that `name` is the active player now. What was known of
    /// the player before is forgotten.
    pub fn change_player(&mut self, name: String)
        ensures
            final(self)@ == NowPlayingModel::fresh(name@),
    {
        self.player_name = name;
        self.playing = false;
        self.length = None;
        self.album = None;
        self.album_artist = None;
        self.art_url = None;
        self.title = None;
        self.track_number = None;
        self.disc_number = None;
        self.url = None;
        self.artist = None;
    }

    /// Takes note of the playback status `status` of the player.
    pub fn change_status(&mut self, status: &str)
        ensures
            final(self)@ == old(self)@.change_status(status@),
    {
        self.playing = same_name(status, PLAYING_STATUS);
    }

    /// Takes note that the property `key` of the track holds `value`. A
    /// property that the follower does not show, and a value that cannot be
    /// read as its property asks, change nothing.
    pub fn set(&mut self, key: &str, value: &MetaValue)
        ensures
            final(self)@ == old(self)@.set(key@, value@),
    {
        if same_name(key, "mpris:length") {
            if let Some(n) = value.read_len() {
                self.length = Some(n);
            }
        } else if same_name(key, "xesam:album") {
            if let Some(text) = value.read_string() {
                self.album = Some(text);
            }
        } else if same_name(key, "xesam:albumArtist") {
            if let Some(text) = value.read_string() {
                self.album_artist = Some(text);
            }
        } else if same_name(key, "mpris:artUrl") {
            if let Some(text) = value.read_string() {
                self.art_url = Some(text);
            }
        } else if same_name(key, "xesam:title") {
            if let Some(text) = value.read_string() {
                self.title = Some(text);
            }
        } else if same_name(key, "xesam:trackNumber") {
            if let Some(n) = value.read_count() {
                self.track_number = Some(n);
            }
        } else if same_name(key, "xesam:discNumber") {
            if let Some(n) = value.read_count() {
                self.disc_number = Some(n);
            }
        } else if same_name(key, "xesam:url") {
            if let Some(text) = value.read_string() {
                self.url = Some(text);
            }
        } else if same_name(key, "xesam:artist") {
            if let Some(text) = value.read_string() {
                self.artist = Some(text);
            }
        }
    }

    /// Takes note of a piece of news of the player: its playback status
    /// `status` if the news holds one, and else the properties `entries` of
    /// its track, one after the other.
    pub fn change_metadata(&mut self, status: Option<String>, entries: &Vec<(String, MetaValue)>)
        ensures
            final(self)@ == old(self)@.change_metadata(name_of(status), entries_of(entries@)),
    {
        match status {
            Some(status) => {
                self.change_status(status.as_str());
            },
            None => {
                let ghost all = entries_of(entries@);
                let mut i: usize = 0;
                assert(all.subrange(0, 0) =~= Seq::empty());
                while i < entries.len()
                    invariant
                        i <= entries.len(),
                        all == entries_of(entries@),
                        self@ == old(self)@.set_all(all.subrange(0, i as int)),
                    decreases entries.len() - i,
                {
                    proof {
                        let next = all.subrange(0, i + 1);
                        assert(next.drop_last() =~= all.subrange(0, i as int));
                        assert(next.last() == (entries@[i as int].0@, entries@[i as int].1@));
                    }
                    self.set(entries[i].0.as_str(), &entries[i].1);
                    i += 1;
                }
                assert(all.subrange(0, i as int) =~= all);
            },
        }
    }

    /// The line that shows what is known.
    pub fn render(&self) -> (line: String)
        ensures
            line@ == self@.rendered(),
    {
        let mut line = String::new();
        assert(line@ + "{ \"player\": \""@ =~= "{ \"player\": \""@);
        line.append("{ \"player\": \"");
        line.append(self.player_name.as_str());
        line.append("\", \"playing\": \"");
        if self.playing {
            line.append("true");
        } else {
            line.append("false");
        }
        line.append("\", \"length\": \"");
        push_number(&mut line, &self.length);
        line.append("\", \"album\": \"");
        push_text(&mut line, &self.album);
        line.append("\", \"album_artist\": \"");
        push_text(&mut line, &self.album_artist);
        line.append("\", \"art_url\": \"");
        push_text(&mut line, &self.art_url);
        line.append("\", \"title\": \"");
        push_text(&mut line, &self.title);
        line.append("\", \"track_number\": \"");
        push_number(&mut line, &self.track_number);
        line.append("\", \"disc_number\": \"");
        push_number(&mut line, &self.disc_number);
        line.append("\", \"url\": \"");
        push_text(&mut line, &self.url);
        line.append("\", \"artist\": \"");
        push_text(&mut line, &self.artist);
        line.append("\" }");
        line
    }
}

} // verus!
