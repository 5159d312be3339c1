//! The languages that the editor can highlight, told by a file's extension.

use vstd::prelude::*;
use vstd::slice::slice_subrange;
use vstd::utf8::encode_utf8;

verus! {

#[derive(Clone, Copy, Debug, PartialEq, Eq, Structural)]
pub enum Language {
    Rust,
    Toml,
}

/// The position of the last `b` in `bytes`, or -1 if there is none.
pub open spec fn last_index_of(bytes: Seq<u8>, b: u8) -> int
    decreases bytes.len(),
{
    if bytes.len() == 0 {
        -1
    } else if bytes.last() == b {
        bytes.len() - 1
    } else {
        last_index_of(bytes.drop_last(), b)
    }
}

/// Whether the last byte of a path belongs to no component: it is a slash,
/// or a dot that stands alone after a slash or as the whole path.
pub open spec fn ends_loose(path: Seq<u8>) -> bool {
    &&& path.len() > 0
    &&& (path.last() == 0x2f || (path.last() == 0x2e && (path.len() == 1 || path[path.len() - 2]
        == 0x2f)))
}

/// The path up to the end of its last component. Components are parted by
/// slashes; an empty one and a single dot do not count, so trailing slashes
/// and trailing `/.` fall away.
pub open spec fn trimmed(path: Seq<u8>) -> Seq<u8>
    decreases path.len(),
{
    if ends_loose(path) {
        trimmed(path.drop_last())
    } else {
        path
    }
}

/// The file name of a path: its last component, which is what follows the
/// last slash of the trimmed path. It is empty for a path without a
/// component.
pub open spec fn file_name(path: Seq<u8>) -> Seq<u8> {
    let kept = trimmed(path);
    kept.subrange(last_index_of(kept, 0x2f) + 1, kept.len() as int)
}

/// The extension of a path: what follows the last dot of its file name. There
/// is none where the name has no dot or only one at its start, nor where the
/// name is `..`.
pub open spec fn extension(path: Seq<u8>) -> Option<Seq<u8>> {
    let name = file_name(path);
    let dot = last_index_of(name, 0x2e);
    if dot <= 0 || name == seq![0x2eu8, 0x2eu8] {
        None
    } else {
        Some(name.subrange(dot + 1, name.len() as int))
    }
}

/// The language of a file with this extension: Rust for `rs`, TOML for `toml`.
pub open spec fn language_of(ext: Option<Seq<u8>>) -> Option<Language> {
    if ext == Some(seq![0x72u8, 0x73u8]) {
        Some(Language::Rust)
    } else if ext == Some(seq![0x74u8, 0x6fu8, 0x6du8, 0x6cu8]) {
        Some(Language::Toml)
    } else {
        None
    }
}

/// The language of the file at a path, told by the path's extension.
pub open spec fn detected(path: Seq<char>) -> Option<Language> {
    language_of(extension(encode_utf8(path)))
}

/// The last `b` of `bytes[..end]` lies at or after -1 and before `end`, it is a
/// `b`, and no `b` follows it.
proof fn lemma_last_index_of(bytes: Seq<u8>, b: u8)
    ensures
        -1 <= last_index_of(bytes, b) < bytes.len(),
        last_index_of(bytes, b) >= 0 ==> bytes[last_index_of(bytes, b)] == b,
        forall|k: int| last_index_of(bytes, b) < k < bytes.len() ==> bytes[k] != b,
    decreases bytes.len(),
{
    if bytes.len() > 0 && bytes.last() != b {
        let front = bytes.drop_last();
        lemma_last_index_of(front, b);
        assert forall|k: int| last_index_of(bytes, b) < k < bytes.len() implies bytes[k] != b by {
            if k < front.len() {
                assert(front[k] == bytes[k]);
            }
        }
    }
}

/// The position found by a search from the end is the last one.
proof fn lemma_last_index_found(bytes: Seq<u8>, b: u8, i: int)
    requires
        -1 <= i < bytes.len(),
        i >= 0 ==> bytes[i] == b,
        forall|k: int| i < k < bytes.len() ==> bytes[k] != b,
    ensures
        last_index_of(bytes, b) == i,
    decreases bytes.len(),
{
    if bytes.len() > 0 && bytes.last() != b {
        let front = bytes.drop_last();
        assert forall|k: int| i < k < front.len() implies front[k] != b by {
            assert(front[k] == bytes[k]);
        }
        if i >= 0 {
            assert(front[i] == bytes[i]);
        }
        lemma_last_index_found(front, b, i);
    }
}

/// The position of the last `b` among the bytes from `start` on, counted from
/// `start`, or -1 if there is none.
fn find_last(bytes: &[u8], start: usize, b: u8) -> (res: Option<usize>)
    requires
        start <= bytes@.len(),
    ensures
        match res {
            Some(i) => i < bytes@.len() - start && last_index_of(
                bytes@.subrange(start as int, bytes@.len() as int),
                b,
            ) == i,
            None => last_index_of(bytes@.subrange(start as int, bytes@.len() as int), b) == -1,
        },
{
    let ghost tail = bytes@.subrange(start as int, bytes@.len() as int);
    let mut i = bytes.len();
    while i > start
        invariant
            start <= i <= bytes@.len(),
            tail == bytes@.subrange(start as int, bytes@.len() as int),
            forall|k: int| i <= k < bytes@.len() ==> bytes@[k] != b,
        decreases i,
    {
        i -= 1;
        if bytes[i] == b {
            proof {
                lemma_last_index_found(tail, b, i - start);
            }
            return Some(i - start);
        }
    }
    proof {
        lemma_last_index_found(tail, b, -1);
    }
    None
}

/// Whether the bytes from `start` on are those of `word`.
fn tail_is(bytes: &[u8], start: usize, word: &[u8]) -> (res: bool)
    requires
        start <= bytes@.len(),
    ensures
        res == (bytes@.subrange(start as int, bytes@.len() as int) == word@),
{
    let ghost tail = bytes@.subrange(start as int, bytes@.len() as int);
    if bytes.len() - start != word.len() {
        return false;
    }
    let mut i: usize = 0;
    while i < word.len()
        invariant
            start <= bytes@.len() <= usize::MAX,
            bytes@.len() - start == word@.len(),
            i <= word@.len(),
            tail == bytes@.subrange(start as int, bytes@.len() as int),
            forall|k: int| 0 <= k < i ==> tail[k] == word@[k],
        decreases word@.len() - i,
    {
        if bytes[start + i] != word[i] {
            assert(tail[i as int] == bytes@[start + i]);
            return false;
        }
        assert(tail[i as int] == bytes@[start + i]);
        i += 1;
    }
    assert(tail =~= word@);
    true
}

/// The length of the path without what follows its last component.
fn trimmed_len(bytes: &[u8]) -> (end: usize)
    ensures
        end <= bytes@.len(),
        trimmed(bytes@) == bytes@.subrange(0, end as int),
{
    let mut end = bytes.len();
    assert(bytes@.subrange(0, end as int) =~= bytes@);
    while end > 0 && (bytes[end - 1] == 0x2f || (bytes[end - 1] == 0x2e && (end == 1 || bytes[end
        - 2] == 0x2f)))
        invariant
            end <= bytes@.len(),
            trimmed(bytes@) == trimmed(bytes@.subrange(0, end as int)),
        decreases end,
    {
        assert(bytes@.subrange(0, end as int).drop_last() =~= bytes@.subrange(0, end - 1));
        end -= 1;
    }
    end
}

/// The language of the file at `path`, told by its extension, if it is one
/// that the editor highlights. Only the text of the path is read: a trailing
/// slash or `/.` is left aside, and the extension is compared letter for
/// letter.
pub fn detect(path: &str) -> (lang: Option<Language>)
    ensures
        lang == detected(path@),
{
    let whole = path.as_bytes();
    let bytes = slice_subrange(whole, 0, trimmed_len(whole));
    let _len = bytes.len();
    let ghost name = file_name(whole@);
    proof {
        lemma_last_index_of(bytes@, 0x2f);
    }
    let start = match find_last(bytes, 0, 0x2f) {
        Some(slash) => slash + 1,
        None => 0,
    };
    assert(bytes@.subrange(0, bytes@.len() as int) =~= bytes@);
    assert(name == bytes@.subrange(start as int, bytes@.len() as int));
    match find_last(bytes, start, 0x2e) {
        Some(dot) => {
            if dot == 0 {
                None
            } else {
                let from = start + dot + 1;
                assert(name.subrange(dot + 1, name.len() as int) =~= bytes@.subrange(
                    from as int,
                    bytes@.len() as int,
                ));
                let rs: [u8; 2] = [0x72, 0x73];
                let toml: [u8; 4] = [0x74, 0x6f, 0x6d, 0x6c];
                assert(rs@ =~= seq![0x72u8, 0x73u8]);
                assert(toml@ =~= seq![0x74u8, 0x6fu8, 0x6du8, 0x6cu8]);
                assert(name == seq![0x2eu8, 0x2eu8] ==> from == bytes@.len());
                if tail_is(bytes, from, rs.as_slice()) {
                    Some(Language::Rust)
                } else if tail_is(bytes, from, toml.as_slice()) {
                    Some(Language::Toml)
                } else {
                    None
                }
            }
        },
        None => None,
    }
}

} // verus!
