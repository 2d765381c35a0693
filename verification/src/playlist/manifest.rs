use crate::text::{
    char_views, chars_of, contains, last_quoted, last_quoted_of, lines, lines_of, occurs, split,
    split_at_each, lemma_split_nonempty,
};
use vstd::prelude::*;

verus! {

/// The path marker of the track family that the platform's manifests refer to.
pub open spec fn track_marker() -> Seq<char> {
    "_video/"@
}

/// The tag that marks a line as a subtitle track.
pub open spec fn subtitle_tag() -> Seq<char> {
    "TYPE=SUBTITLES"@
}

/// The origin that every path of a manifest is relative to.
pub open spec fn media_origin() -> Seq<char> {
    "https://video.twimg.com"@
}

/// A line that refers to a track of the family and is no subtitle track.
pub open spec fn is_track_line(line: Seq<char>) -> bool {
    occurs(line, track_marker()) && !occurs(line, subtitle_tag())
}

/// The lines among `all` that refer to a track, in their order.
pub open spec fn kept(all: Seq<Seq<char>>) -> Seq<Seq<char>> {
    all.filter(|line: Seq<char>| is_track_line(line))
}

/// The absolute address that a track line refers to: the origin, then the
/// last non-empty quoted run of the line.
pub open spec fn address_of(line: Seq<char>) -> Seq<char> {
    media_origin() + last_quoted(line)
}

/// The addresses of `found`, line by line.
pub open spec fn addresses_of(found: Seq<Seq<char>>) -> Seq<Seq<char>> {
    found.map_values(|line: Seq<char>| address_of(line))
}

/// The track lines of a manifest, in source order.
pub open spec fn track_lines(text: Seq<char>) -> Seq<Seq<char>> {
    kept(lines(text))
}

/// The absolute addresses that a manifest refers to, in source order.
pub open spec fn track_addresses(text: Seq<char>) -> Seq<Seq<char>> {
    addresses_of(track_lines(text))
}

/// The name of the track that `address` leads to: what stands after its last
/// slash, up to the first dot.
pub open spec fn track_name(address: Seq<char>) -> Seq<char> {
    split(split(address, '/').last(), '.').first()
}

/// Keeping lines commutes with adding one line at the end.
pub proof fn lemma_kept_push(all: Seq<Seq<char>>, line: Seq<char>)
    ensures
        kept(all.push(line)) == if is_track_line(line) {
            kept(all).push(line)
        } else {
            kept(all)
        },
{
    all.lemma_filter_push(line, |line: Seq<char>| is_track_line(line));
}

/// Whether `line` refers to a track.
pub fn is_track_line_of(line: &Vec<char>) -> (keep: bool)
    ensures
        keep == is_track_line(line@),
{
    let marker = chars_of("_video/");
    let tag = chars_of("TYPE=SUBTITLES");
    contains(line, &marker) && !contains(line, &tag)
}

/// The absolute address that `line` refers to.
pub fn address_of_line(line: &Vec<char>) -> (address: Vec<char>)
    ensures
        address@ == address_of(line@),
{
    let mut address = chars_of("https://video.twimg.com");
    let path = last_quoted_of(line);
    let mut i: usize = 0;
    while i < path.len()
        invariant
            i <= path.len(),
            address@ == media_origin() + path@.take(i as int),
        decreases path.len() - i,
    {
        address.push(path[i]);
        assert(media_origin() + path@.take(i as int + 1) =~= (media_origin() + path@.take(
            i as int,
        )).push(path@[i as int]));
        i += 1;
    }
    assert(path@.take(path.len() as int) == path@);
    address
}

/// The absolute addresses that the manifest `text` refers to, in source
/// order; none where no line refers to a track.
pub fn track_addresses_of(text: &Vec<char>) -> (addresses: Vec<Vec<char>>)
    ensures
        char_views(addresses@) == track_addresses(text@),
{
    let all = lines_of(text);
    let mut addresses: Vec<Vec<char>> = Vec::new();
    let mut i: usize = 0;
    assert(char_views(all@).take(0) =~= Seq::<Seq<char>>::empty());
    assert(kept(Seq::<Seq<char>>::empty()) =~= Seq::<Seq<char>>::empty()) by {
        reveal(Seq::filter);
    }
    assert(char_views(addresses@) =~= addresses_of(kept(char_views(all@).take(0))));
    while i < all.len()
        invariant
            i <= all.len(),
            char_views(all@) == lines(text@),
            char_views(addresses@) == addresses_of(kept(char_views(all@).take(i as int))),
        decreases all.len() - i,
    {
        let line = &all[i];
        let ghost seen = char_views(all@).take(i as int);
        proof {
            assert(char_views(all@).take(i as int + 1) =~= seen.push(line@));
            lemma_kept_push(seen, line@);
        }
        if is_track_line_of(line) {
            let address = address_of_line(line);
            let ghost before = char_views(addresses@);
            addresses.push(address);
            assert(char_views(addresses@) =~= before.push(address@));
            assert(addresses_of(kept(seen).push(line@)) =~= addresses_of(kept(seen)).push(
                address_of(line@),
            ));
        }
        i += 1;
    }
    assert(char_views(all@).take(all.len() as int) == char_views(all@));
    addresses
}

/// The name of the track that `address` leads to.
pub fn track_name_of(address: &Vec<char>) -> (name: Vec<char>)
    ensures
        name@ == track_name(address@),
{
    let segments = split_at_each(address, '/');
    proof {
        lemma_split_nonempty(address@, '/');
    }
    let last = &segments[segments.len() - 1];
    assert(last@ == char_views(segments@)[segments.len() - 1]);
    let parts = split_at_each(last, '.');
    proof {
        lemma_split_nonempty(last@, '.');
    }
    assert(parts@[0]@ == char_views(parts@)[0]);
    parts[0].clone()
}

} // verus!
