//! The MIME type of a file.

use vstd::prelude::*;
use vstd::string::*;
use vstd::utf8::*;

use crate::text::{begins_with, chars_of, same_text};

verus! {

/// The type of a file of which nothing is known.
pub const OCTET_STREAM: &'static str = "application/octet-stream";

/// A slash of either kind, which parts the pieces of a path on some platform.
pub open spec fn is_separator(c: char) -> bool {
    c == '/' || c == '\\'
}

/// What may stand before a file name on some platform: a slash, or the colon of a drive.
pub open spec fn is_splitter(c: char) -> bool {
    is_separator(c) || c == ':'
}

/// What follows the last splitter of a path.
pub open spec fn last_piece(path: Seq<char>) -> Seq<char>
    decreases path.len(),
{
    if path.len() == 0 || is_splitter(path.last()) {
        Seq::empty()
    } else {
        last_piece(path.drop_last()).push(path.last())
    }
}

/// How many pieces there are between the separators of a path, without the empty ones.
pub open spec fn piece_count(path: Seq<char>) -> nat
    decreases path.len(),
{
    if path.len() == 0 {
        0
    } else {
        piece_count(path.drop_last()) + if !is_separator(path.last()) && (path.len() == 1
            || is_separator(path[path.len() - 2])) {
            1nat
        } else {
            0nat
        }
    }
}

/// The path begins with two separators, as a Windows path with a server or a device does.
pub open spec fn double_separator(path: Seq<char>) -> bool {
    path.len() >= 2 && is_separator(path[0]) && is_separator(path[1])
}

/// The path begins as a verbatim Windows path does, such as `\\?\C:\dir`. In a verbatim path
/// only a backslash parts the pieces.
pub open spec fn verbatim(path: Seq<char>) -> bool {
    double_separator(path) && path.len() > 2 && path[2] == '?'
}

/// The path begins as a verbatim Windows path with a server does: `\\?\UNC\server\share`.
pub open spec fn verbatim_server(path: Seq<char>) -> bool {
    &&& verbatim(path) && path.len() > 7
    &&& is_separator(path[3]) && is_separator(path[7])
    &&& path[4] == 'U' || path[4] == 'u'
    &&& path[5] == 'N' || path[5] == 'n'
    &&& path[6] == 'C' || path[6] == 'c'
}

/// How many pieces the prefix of a Windows path has at most: the four of
/// `\\?\UNC\server\share`; the two of `\\server\share`, `\\.\device` or `\\?\C:`; else none, as
/// the colon of a drive is a splitter.
pub open spec fn prefix_pieces(path: Seq<char>) -> nat {
    if verbatim_server(path) {
        4
    } else if double_separator(path) {
        2
    } else {
        0
    }
}

/// The piece holds a dot that is not its first character.
pub open spec fn has_inner_dot(piece: Seq<char>) -> bool {
    exists|i: int| 0 < i < piece.len() && #[trigger] piece[i] == '.'
}

/// A path that every platform splits in the same way: without backslashes and
/// colons, and without two slashes at its beginning.
pub open spec fn portable_path(path: Seq<char>) -> bool {
    &&& !path.contains('\\')
    &&& !path.contains(':')
    &&& !begins_with(path, "//"@)
}

/// A path of which every platform takes the same extension, or none that stands for a type:
/// - one that every platform splits in the same way;
/// - one whose last piece is no part of a prefix and holds a dot after its beginning: what
///   follows the last dot is the extension, wherever the file name begins. A verbatim path with
///   slashes is left out: they part no pieces there, and so may belong to the prefix;
/// - one whose last piece holds no dot: there is no extension, or one with a splitter in it,
///   which is that of no type.
pub open spec fn same_extension(path: Seq<char>) -> bool {
    ||| portable_path(path)
    ||| {
        &&& prefix_pieces(path) < piece_count(path)
        &&& has_inner_dot(last_piece(path))
        &&& verbatim(path) ==> !path.contains('/')
    }
    ||| last_piece(path).len() > 0 && !last_piece(path).contains('.')
}

/// The bytes can be looked at on every platform. Where a `usize` has fewer than 64 bits,
/// two of the sums that `infer` makes of lengths in a file may overflow.
pub open spec fn sniffable(data: Seq<u8>) -> bool {
    usize::BITS >= 64 || !(frame_overflows(data) || entry_overflows(data))
}

/// The number that the four bytes at `at` hold, the lowest first.
pub open spec fn number_at(data: Seq<u8>, at: int) -> nat {
    (data[at] + 0x100 * data[at + 1] + 0x1_0000 * data[at + 2] + 0x100_0000 * data[at + 3]) as nat
}

/// The bytes begin with a skippable frame, of eight bytes and as many more as it says.
pub open spec fn skippable_frame(data: Seq<u8>) -> bool {
    data.len() >= 8 && 0x50 <= data[0] <= 0x5f && data[1] == 0x2a && data[2] == 0x4d && data[3]
        == 0x18
}

/// In the chain of skippable frames that the bytes begin with, one says that it is longer than
/// a number of 32 bits can say.
pub open spec fn frame_overflows(data: Seq<u8>) -> bool
    decreases data.len(),
{
    skippable_frame(data) && {
        let len = 8 + number_at(data, 4);
        len > u32::MAX || (len <= data.len() && frame_overflows(data.skip(len as int)))
    }
}

/// The bytes hold the text at `at`.
pub open spec fn text_at(data: Seq<u8>, text: Seq<char>, at: int) -> bool {
    let bytes = encode_utf8(text);
    at + bytes.len() <= data.len() && data.subrange(at, at + bytes.len()) == bytes
}

/// The bytes begin as an Office document does, with a ZIP entry so large that the range in
/// which the next one is looked for ends beyond what a number of 32 bits can say. (Where it
/// begins beyond that, none is looked for.)
pub open spec fn entry_overflows(data: Seq<u8>) -> bool {
    &&& data.len() >= 22
    &&& data[0] == 0x50 && data[1] == 0x4b && data[2] == 0x03 && data[3] == 0x04
    &&& text_at(data, "[Content_Types].xml"@, 30) || text_at(data, "_rels/.rels"@, 30)
        || text_at(data, "docProps"@, 30)
    &&& number_at(data, 18) + 49 <= u32::MAX
    &&& number_at(data, 18) + 49 + 6000 > u32::MAX
}

/// The number that four bytes hold, the lowest first.
fn read_number(data: &Vec<u8>, at: usize) -> (number: u64)
    requires
        at + 4 <= data.len(),
    ensures
        number == number_at(data@, at as int),
{
    data[at] as u64 + 0x100 * (data[at + 1] as u64) + 0x1_0000 * (data[at + 2] as u64) + 0x100_0000
        * (data[at + 3] as u64)
}

/// Whether the bytes hold the text at `at`.
fn holds_text(data: &Vec<u8>, text: &str, at: usize) -> (result: bool)
    ensures
        result == text_at(data@, text@, at as int),
{
    let bytes = text.as_bytes();
    if at > data.len() || bytes.len() > data.len() - at {
        return false;
    }
    let mut i: usize = 0;
    while i < bytes.len()
        invariant
            i <= bytes.len(),
            bytes@ == encode_utf8(text@),
            at + bytes.len() <= data.len(),
            forall|j: int| 0 <= j < i ==> data@[at + j] == bytes@[j],
        decreases bytes.len() - i,
    {
        if data[at + i] != bytes[i] {
            assert(data@.subrange(at as int, at + bytes@.len())[i as int] == data@[at + i]);
            return false;
        }
        i = i + 1;
    }
    assert(data@.subrange(at as int, at + bytes@.len()) =~= bytes@);
    true
}

/// Whether a frame of the chain is too long.
fn has_frame_overflow(data: &Vec<u8>) -> (result: bool)
    ensures
        result == frame_overflows(data@),
{
    let mut at: usize = 0;
    assert(data@.skip(0) == data@);
    while data.len() - at >= 8 && 0x50 <= data[at] && data[at] <= 0x5f && data[at + 1] == 0x2a
        && data[at + 2] == 0x4d && data[at + 3] == 0x18
        invariant
            at <= data.len(),
            frame_overflows(data@.skip(at as int)) == frame_overflows(data@),
        decreases data.len() - at,
    {
        let ghost rest = data@.skip(at as int);
        let len = 8 + read_number(data, at + 4);
        assert(number_at(rest, 4) == number_at(data@, at + 4));
        assert(skippable_frame(rest));
        if len > u32::MAX as u64 {
            return true;
        }
        if len > (data.len() - at) as u64 {
            return false;
        }
        assert(rest.skip(len as int) == data@.skip(at + len));
        at = at + len as usize;
    }
    false
}

/// Whether the bytes can be looked at on this platform.
pub fn can_sniff(data: &Vec<u8>) -> (result: bool)
    ensures
        result == sniffable(data@),
{
    if usize::BITS >= 64 {
        return true;
    }
    let document = data.len() >= 22 && data[0] == 0x50 && data[1] == 0x4b && data[2] == 0x03
        && data[3] == 0x04 && (holds_text(data, "[Content_Types].xml", 30) || holds_text(
        data,
        "_rels/.rels",
        30,
    ) || holds_text(data, "docProps", 30));
    if document {
        let start = read_number(data, 18) + 49;
        if start <= u32::MAX as u64 && start + 6000 > u32::MAX as u64 {
            return false;
        }
    }
    !has_frame_overflow(data)
}

/// The type that `mime_guess` gives a path, by its extension.
pub uninterp spec fn guessed_mime(path: Seq<char>) -> Seq<char>;

/// The type that `infer` gives a file, by its bytes, where it knows them.
pub uninterp spec fn sniffed_mime(data: Seq<u8>) -> Option<Seq<char>>;

/// `mime_guess::from_path`, of whose guess the first type is taken without its
/// parameters, or `application/octet-stream` where it is empty.
///
/// The guess goes by the extension of the path alone, and the platform says what that is: what
/// follows the last dot of the file name, if a dot stands after its beginning. Of a path on
/// which the platforms agree the type is named. Of any path it is that of something which
/// follows a dot in it, or the unknown one. Left open is which of these it is on paths on which
/// the platforms need not agree, such as a name with nothing before its dot after a backslash, or
/// a verbatim Windows path with slashes.
#[verifier::external_body]
fn guess_mime(path: &str) -> (essence: String)
    ensures
        same_extension(path@) ==> essence@ == guessed_mime(path@),
        shown_inside(path@, essence@),
{
    mime_guess::from_path(path).first_or_octet_stream().essence_str().to_string()
}

/// `infer::get`: the type that the first bytes of a file show, if any.
#[verifier::external_body]
fn sniff_mime(data: &Vec<u8>) -> (found: Option<String>)
    requires
        sniffable(data@),
    ensures
        found.deep_view() == sniffed_mime(data@),
{
    infer::get(data).map(|kind| kind.mime_type().to_string())
}

/// The type of a file whose name shows `by_name` and whose bytes show `by_bytes`: the
/// name counts first, then the bytes.
pub open spec fn chosen_mime(by_name: Seq<char>, by_bytes: Option<Seq<char>>) -> Seq<char> {
    if by_name != OCTET_STREAM@ {
        by_name
    } else {
        match by_bytes {
            Some(found) => found,
            None => OCTET_STREAM@,
        }
    }
}

/// Chooses between the type that the name shows and the one that the bytes show.
pub fn choose_mime(by_name: String, by_bytes: Option<String>) -> (mime: String)
    ensures
        mime@ == chosen_mime(by_name@, by_bytes.deep_view()),
{
    if !same_text(by_name.as_str(), OCTET_STREAM) {
        return by_name;
    }
    match by_bytes {
        Some(found) => found,
        None => OCTET_STREAM.to_owned(),
    }
}

/// The type is the unknown one, or that of a file whose extension follows a dot in the path.
pub open spec fn shown_inside(path: Seq<char>, mime: Seq<char>) -> bool {
    ||| mime == OCTET_STREAM@
    ||| exists|from: int, to: int|
        0 < from <= to <= path.len() && path[from - 1] == '.' && mime == #[trigger] guessed_mime(
            "a."@ + path.subrange(from, to),
        )
}

/// The type that the name of a file may show.
pub open spec fn name_shows(path: Seq<char>, by_name: Seq<char>) -> bool {
    &&& same_extension(path) ==> by_name == guessed_mime(path)
    &&& shown_inside(path, by_name)
}

/// The type that a file may get: the one that its name and its bytes show.
pub open spec fn mime_fits(path: Seq<char>, data: Seq<u8>, mime: Seq<char>) -> bool {
    exists|by_name: Seq<char>| #[trigger]
        name_shows(path, by_name) && mime == chosen_mime(by_name, sniffed_mime(data))
}

/// The type of a file can be told: its name shows it, or its bytes can be looked at.
pub open spec fn tellable(path: Seq<char>, data: Seq<u8>) -> bool {
    sniffable(data) || (same_extension(path) && guessed_mime(path) != OCTET_STREAM@)
}

/// Whether the character parts the pieces of a path on some platform.
fn separates(c: char) -> (result: bool)
    ensures
        result == is_separator(c),
{
    c == '/' || c == '\\'
}

/// Whether every platform takes the same extension of the path, or none that stands for a type.
fn agrees_on_extension(path: &str) -> (result: bool)
    ensures
        result == same_extension(path@),
{
    let chars = chars_of(path);
    let mut slash = false;
    let mut backslash = false;
    let mut colon = false;
    let mut pieces: usize = 0;
    let mut piece_len: usize = 0;
    let mut dot = false;
    let mut inner_dot = false;
    let mut i: usize = 0;
    while i < chars.len()
        invariant
            chars@ == path@,
            i <= chars.len(),
            slash == path@.take(i as int).contains('/'),
            backslash == path@.take(i as int).contains('\\'),
            colon == path@.take(i as int).contains(':'),
            pieces == piece_count(path@.take(i as int)),
            pieces <= i,
            piece_len == last_piece(path@.take(i as int)).len(),
            piece_len <= i,
            dot == last_piece(path@.take(i as int)).contains('.'),
            inner_dot == has_inner_dot(last_piece(path@.take(i as int))),
        decreases chars.len() - i,
    {
        let c = chars[i];
        let separator = separates(c);
        let ghost before = path@.take(i as int);
        let ghost after = path@.take(i + 1);
        let ghost piece = last_piece(before);
        assert(after == before.push(c));
        assert(after.drop_last() == before);
        if !separator && (i == 0 || separates(chars[i - 1])) {
            pieces = pieces + 1;
        }
        proof {
            lemma_contains_push(before, c, '/');
            lemma_contains_push(before, c, '\\');
            lemma_contains_push(before, c, ':');
            lemma_contains_push(piece, c, '.');
            lemma_inner_dot_push(piece, c);
        }
        if c == '/' {
            slash = true;
        }
        if c == '\\' {
            backslash = true;
        }
        if c == ':' {
            colon = true;
        }
        if separator || c == ':' {
            piece_len = 0;
            dot = false;
            inner_dot = false;
        } else {
            if c == '.' {
                dot = true;
                if piece_len > 0 {
                    inner_dot = true;
                }
            }
            piece_len = piece_len + 1;
        }
        i = i + 1;
    }
    assert(path@.take(chars.len() as int) == path@);
    let double = chars.len() >= 2 && separates(chars[0]) && separates(chars[1]);
    let literal = double && chars.len() > 2 && chars[2] == '?';
    let server = literal && chars.len() > 7 && separates(chars[3]) && separates(chars[7]) && (
    chars[4] == 'U' || chars[4] == 'u') && (chars[5] == 'N' || chars[5] == 'n') && (chars[6] == 'C'
        || chars[6] == 'c');
    let prefix: usize = if server {
        4
    } else if double {
        2
    } else {
        0
    };
    let double_slash = chars.len() >= 2 && chars[0] == '/' && chars[1] == '/';
    proof {
        reveal_strlit("//");
        if double_slash {
            assert(path@.subrange(0, 2) =~= "//"@);
        } else if begins_with(path@, "//"@) {
            assert(path@.subrange(0, 2)[0] == '/' && path@.subrange(0, 2)[1] == '/');
        }
    }
    (!backslash && !colon && !double_slash) || (prefix < pieces && inner_dot && !(literal && slash))
        || (piece_len > 0 && !dot)
}

/// What a sequence with one more item contains.
proof fn lemma_contains_push(items: Seq<char>, added: char, wanted: char)
    ensures
        items.push(added).contains(wanted) == (items.contains(wanted) || added == wanted),
{
    let all = items.push(added);
    if items.contains(wanted) {
        let i = choose|i: int| 0 <= i < items.len() && items[i] == wanted;
        assert(all[i] == wanted);
    }
    if added == wanted {
        assert(all[items.len() as int] == wanted);
    }
}

/// Whether a piece with one more character has an inner dot.
proof fn lemma_inner_dot_push(piece: Seq<char>, added: char)
    ensures
        has_inner_dot(piece.push(added)) == (has_inner_dot(piece) || (piece.len() > 0 && added
            == '.')),
{
    let all = piece.push(added);
    if has_inner_dot(piece) {
        let i = choose|i: int| 0 < i < piece.len() && #[trigger] piece[i] == '.';
        assert(all[i] == '.');
    }
    if piece.len() > 0 && added == '.' {
        assert(all[piece.len() as int] == '.');
    }
    if has_inner_dot(all) {
        let i = choose|i: int| 0 < i < all.len() && #[trigger] all[i] == '.';
        if i < piece.len() {
            assert(piece[i] == '.');
        }
    }
}

/// Whether the type of a file can be told.
pub fn can_tell(path: &str, data: &Vec<u8>) -> (result: bool)
    ensures
        result == tellable(path@, data@),
{
    can_sniff(data) || (agrees_on_extension(path) && !same_text(
        guess_mime(path).as_str(),
        OCTET_STREAM,
    ))
}

/// The MIME type of a file, by its name and, where the name does not show it, by its
/// bytes.
pub fn detect_mime(path: &str, data: &Vec<u8>) -> (mime: String)
    requires
        tellable(path@, data@),
    ensures
        same_extension(path@) ==> mime@ == chosen_mime(guessed_mime(path@), sniffed_mime(data@)),
        mime_fits(path@, data@, mime@),
{
    let by_name = guess_mime(path);
    let ghost name = by_name@;
    let mime = if same_text(by_name.as_str(), OCTET_STREAM) {
        choose_mime(by_name, sniff_mime(data))
    } else {
        by_name
    };
    assert(name_shows(path@, name));
    assert(mime@ == chosen_mime(name, sniffed_mime(data@)));
    mime
}

/// A path of a directory, a name, a dot and an extension shows its type by its name, however long
/// it is and whether its pieces are parted by slashes or backslashes, unless it begins with two
/// of them.
pub proof fn law_ordinary_path_shows_its_type(
    directory: Seq<char>,
    name: Seq<char>,
    extension: Seq<char>,
)
    requires
        directory.len() == 0 || is_splitter(directory.last()),
        name.len() > 0,
        forall|i: int| 0 <= i < name.len() ==> !is_splitter(#[trigger] name[i]),
        forall|i: int| 0 <= i < extension.len() ==> !is_splitter(#[trigger] extension[i]),
        !double_separator(directory + name + "."@ + extension),
    ensures
        same_extension(directory + name + "."@ + extension),
{
    reveal_strlit(".");
    let piece = name + "."@ + extension;
    let path = directory + name + "."@ + extension;
    assert(path =~= directory + piece);
    assert forall|i: int| 0 <= i < piece.len() implies !is_splitter(#[trigger] piece[i]) by {
        if i < name.len() {
            assert(piece[i] == name[i]);
        } else if i > name.len() {
            assert(piece[i] == extension[i - name.len() - 1]);
        }
    }
    lemma_last_piece(directory, piece);
    assert(piece[name.len() as int] == '.');
    lemma_some_piece(path, directory.len() as int);
}

/// What follows the last splitter is the last piece.
proof fn lemma_last_piece(before: Seq<char>, piece: Seq<char>)
    requires
        before.len() == 0 || is_splitter(before.last()),
        forall|i: int| 0 <= i < piece.len() ==> !is_splitter(#[trigger] piece[i]),
    ensures
        last_piece(before + piece) == piece,
    decreases piece.len(),
{
    let path = before + piece;
    if piece.len() == 0 {
        assert(path =~= before);
        assert(last_piece(path) =~= piece);
    } else {
        lemma_last_piece(before, piece.drop_last());
        assert(path.drop_last() =~= before + piece.drop_last());
        assert(path.last() == piece.last());
        assert(last_piece(path) =~= piece);
    }
}

/// A path that holds something but separators has a piece.
proof fn lemma_some_piece(path: Seq<char>, at: int)
    requires
        0 <= at < path.len(),
        !is_separator(path[at]),
    ensures
        piece_count(path) > 0,
    decreases path.len(),
{
    let before = path.drop_last();
    if at < before.len() {
        lemma_some_piece(before, at);
    } else if path.len() > 1 && !is_separator(path[path.len() - 2]) {
        lemma_some_piece(before, path.len() - 2);
    }
}

/// The type of a file is the one that its name shows, whatever its bytes; only where the name
/// shows none is it the one that the bytes show, and where they show none either, it is that of
/// any bytes.
pub proof fn law_name_counts_before_bytes(path: Seq<char>, data: Seq<u8>, mime: Seq<char>)
    requires
        same_extension(path),
        mime_fits(path, data, mime),
    ensures
        guessed_mime(path) != "application/octet-stream"@ ==> mime == guessed_mime(path),
        guessed_mime(path) == "application/octet-stream"@ && sniffed_mime(data) is Some ==> mime
            == sniffed_mime(data)->Some_0,
        guessed_mime(path) == "application/octet-stream"@ && sniffed_mime(data) is None ==> mime
            == "application/octet-stream"@,
{
}

/// Chosen is the type by the name, or the one by the bytes where the name shows none.
pub proof fn law_choice_is_one_of_the_two(by_name: Seq<char>, by_bytes: Option<Seq<char>>)
    ensures
        by_name != "application/octet-stream"@ ==> chosen_mime(by_name, by_bytes) == by_name,
        by_name == "application/octet-stream"@ ==> chosen_mime(by_name, by_bytes) == (
        match by_bytes {
            Some(found) => found,
            None => "application/octet-stream"@,
        }),
{
}

/// Bytes can be looked at wherever a length has 64 bits; and everywhere, unless they begin with a
/// skippable frame or a ZIP entry.
pub proof fn law_most_bytes_can_be_looked_at(data: Seq<u8>)
    ensures
        usize::BITS >= 64 ==> sniffable(data),
        data.len() < 8 ==> sniffable(data),
        data.len() >= 8 && data[3] != 0x18 && data[3] != 0x04 ==> sniffable(data),
{
}

/// So does a path that begins with two separators, where at least four pieces stand before its
/// name: no prefix has more. In a verbatim one only backslashes part the pieces.
pub proof fn law_server_path_shows_its_type(
    directory: Seq<char>,
    name: Seq<char>,
    extension: Seq<char>,
)
    requires
        directory.len() > 0,
        is_separator(directory.last()),
        piece_count(directory) >= 4,
        name.len() > 0,
        forall|i: int| 0 <= i < name.len() ==> !is_splitter(#[trigger] name[i]),
        forall|i: int| 0 <= i < extension.len() ==> !is_splitter(#[trigger] extension[i]),
        directory.len() > 2 && directory[2] == '?' ==> !directory.contains('/'),
    ensures
        same_extension(directory + name + "."@ + extension),
{
    reveal_strlit(".");
    let piece = name + "."@ + extension;
    let path = directory + name + "."@ + extension;
    assert(path =~= directory + piece);
    assert forall|i: int| 0 <= i < piece.len() implies !is_splitter(#[trigger] piece[i]) by {
        if i < name.len() {
            assert(piece[i] == name[i]);
        } else if i > name.len() {
            assert(piece[i] == extension[i - name.len() - 1]);
        }
    }
    lemma_last_piece(directory, piece);
    assert(piece[name.len() as int] == '.');
    lemma_one_more_piece(directory, piece);
    if verbatim(path) && path.contains('/') {
        let at = choose|at: int| 0 <= at < path.len() && path[at] == '/';
        if at < directory.len() {
            assert(directory[at] == '/');
        } else {
            assert(piece[at - directory.len()] == '/');
        }
        if directory.len() <= 2 {
            lemma_few_pieces(directory);
        }
    }
}

/// A name after a separator is one more piece.
proof fn lemma_one_more_piece(directory: Seq<char>, piece: Seq<char>)
    requires
        directory.len() > 0,
        is_separator(directory.last()),
        piece.len() > 0,
        forall|i: int| 0 <= i < piece.len() ==> !is_splitter(#[trigger] piece[i]),
    ensures
        piece_count(directory + piece) == piece_count(directory) + 1,
    decreases piece.len(),
{
    let path = directory + piece;
    let before = piece.drop_last();
    assert(path.drop_last() =~= directory + before);
    assert(path.last() == piece.last());
    if before.len() == 0 {
        assert(directory + before =~= directory);
        assert(path[path.len() - 2] == directory.last());
    } else {
        lemma_one_more_piece(directory, before);
        assert(path[path.len() - 2] == before.last());
        assert(before.last() == piece[piece.len() - 2]);
    }
}

/// A path has no more pieces than characters.
proof fn lemma_few_pieces(path: Seq<char>)
    ensures
        piece_count(path) <= path.len(),
    decreases path.len(),
{
    if path.len() > 0 {
        lemma_few_pieces(path.drop_last());
    }
}

/// The type of a file can be told wherever its bytes can be looked at, and where its name shows
/// it; and whatever type it gets, its name or its bytes show it, or it is that of any bytes.
pub proof fn law_type_comes_of_name_or_bytes(path: Seq<char>, data: Seq<u8>, mime: Seq<char>)
    requires
        mime_fits(path, data, mime),
    ensures
        tellable(path, data) <==> sniffable(data) || (same_extension(path) && guessed_mime(path)
            != "application/octet-stream"@),
        ({
            ||| mime == "application/octet-stream"@
            ||| sniffed_mime(data) == Some(mime)
            ||| exists|from: int, to: int|
                0 < from <= to <= path.len() && path[from - 1] == '.' && mime
                    == #[trigger] guessed_mime("a."@ + path.subrange(from, to))
        }),
{
}

} // verus!
