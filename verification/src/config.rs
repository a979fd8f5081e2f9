//! The run configuration: span mode, search query and API key, read once
//! from the arguments the caller collected.
use vstd::prelude::*;

use crate::display::str_eq;
use crate::rng::random_below;
use crate::text::{
    contains_seq, contains_str, lower_seq, match_at, rfind_char, rfind_idx, starts_with_str,
    to_lower,
};

verus! {

/// Holds the application configuration.
pub struct Config {
    pub span: bool,
    pub query: String,
    pub api_key: Option<String>,
}

/// The keyword list without the first occurrence of `x`.
pub open spec fn remove_first(s: Seq<Seq<char>>, x: Seq<char>) -> Seq<Seq<char>>
    decreases s.len(),
{
    if s.len() == 0 {
        s
    } else if s[0] == x {
        s.drop_first()
    } else {
        seq![s[0]] + remove_first(s.drop_first(), x)
    }
}

/// Removing a word that does not occur changes nothing.
proof fn lemma_remove_first_absent(s: Seq<Seq<char>>, x: Seq<char>)
    requires
        forall|k: int| 0 <= k < s.len() ==> s[k] != x,
    ensures
        remove_first(s, x) == s,
    decreases s.len(),
{
    if s.len() > 0 {
        let t = s.drop_first();
        assert(forall|k: int| 0 <= k < t.len() ==> t[k] == s[k + 1]);
        lemma_remove_first_absent(t, x);
        assert(seq![s[0]] + t =~= s);
    }
}

/// Removing a word drops exactly its first occurrence.
proof fn lemma_remove_first_at(s: Seq<Seq<char>>, x: Seq<char>, i: int)
    requires
        0 <= i < s.len(),
        s[i] == x,
        forall|k: int| 0 <= k < i ==> s[k] != x,
    ensures
        remove_first(s, x) == s.remove(i),
    decreases i,
{
    if i == 0 {
        assert(remove_first(s, x) =~= s.remove(0));
    } else {
        let t = s.drop_first();
        assert(forall|k: int| 0 <= k < i - 1 ==> t[k] == s[k + 1]);
        lemma_remove_first_at(t, x, i - 1);
        assert(seq![s[0]] + t.remove(i - 1) =~= s.remove(i));
    }
}

/// Removes the first occurrence of `term` from the keyword list, if any.
pub fn remove_element(keywords: &mut Vec<String>, term: String)
    ensures
        final(keywords).deep_view() == remove_first(old(keywords).deep_view(), term@),
{
    let n = keywords.len();
    let mut i: usize = 0;
    while i < n
        invariant
            n == keywords@.len(),
            keywords.deep_view() == old(keywords).deep_view(),
            i <= n,
            forall|k: int| 0 <= k < i ==> old(keywords).deep_view()[k] != term@,
        decreases n - i,
    {
        proof {
            assert(keywords.deep_view()[i as int] == keywords@[i as int]@);
        }
        if str_eq(keywords[i].as_str(), term.as_str()) {
            let ghost prev = keywords.deep_view();
            keywords.remove(i);
            proof {
                assert(keywords.deep_view() =~= prev.remove(i as int));
                lemma_remove_first_at(prev, term@, i as int);
            }
            return ;
        }
        i += 1;
    }
    proof {
        lemma_remove_first_absent(keywords.deep_view(), term@);
    }
}

/// One keyword of the list, drawn at random; a single keyword is taken as it
/// stands.
pub fn choose_random_keyword(keywords: Vec<String>) -> (r: String)
    requires
        keywords.deep_view().len() > 0,
    ensures
        keywords.deep_view().contains(r@),
        keywords.deep_view().len() == 1 ==> r@ == keywords.deep_view()[0],
{
    let n = keywords.len();
    let idx: usize = if n > 1 {
        random_below(n)
    } else {
        0
    };
    proof {
        assert(keywords.deep_view()[idx as int] == keywords@[idx as int]@);
    }
    let r = keywords[idx].clone();
    r
}

/// True when the list holds a word equal to `term`.
fn contains_word(words: &Vec<String>, term: &str) -> (r: bool)
    ensures
        r == words.deep_view().contains(term@),
{
    let n = words.len();
    let mut i: usize = 0;
    while i < n
        invariant
            n == words@.len(),
            i <= n,
            forall|k: int| 0 <= k < i ==> words.deep_view()[k] != term@,
        decreases n - i,
    {
        proof {
            assert(words.deep_view()[i as int] == words@[i as int]@);
        }
        if str_eq(words[i].as_str(), term) {
            return true;
        }
        i += 1;
    }
    proof {
        if words.deep_view().contains(term@) {
            let k = choose|k: int| 0 <= k < words.deep_view().len() && words.deep_view()[k]
                == term@;
            assert(words.deep_view()[k] == term@);
        }
    }
    false
}

/// Reads the configuration out of the command-line words: `span` anywhere
/// turns span mode on and is no keyword; of the remaining keywords one is
/// chosen at random; none leaves the query empty. The API key is handed in
/// by the caller, who read it from the environment.
pub fn parse_cli_args(args: Vec<String>, api_key: Option<String>) -> (c: Config)
    ensures
        c.span == args.deep_view().contains("span"@),
        c.api_key == api_key,
        ({
            let keywords = remove_first(args.deep_view(), "span"@);
            &&& (keywords.len() == 0 ==> c.query@ == Seq::<char>::empty())
            &&& (keywords.len() > 0 ==> keywords.contains(c.query@))
            &&& (keywords.len() == 1 ==> c.query@ == keywords[0])
        }),
{
    let span = contains_word(&args, "span");
    let mut keywords = args;
    remove_element(&mut keywords, String::from_str("span"));
    let query = if keywords.len() == 0 {
        String::new()
    } else {
        choose_random_keyword(keywords)
    };
    Config { span, query, api_key }
}

/// True when the string looks like a URL: an `http` scheme prefix and a
/// scheme separator somewhere.
pub fn is_url(to_check: &str) -> (r: bool)
    ensures
        r == (match_at(to_check@, "http"@, 0) && contains_seq(to_check@, "://"@)),
{
    let starts = starts_with_str(to_check, "http");
    if !starts {
        return false;
    }
    contains_str(to_check, "://")
}

/// Relies on `dirs::home_dir`: the user's home directory, which depends on
/// the environment, so nothing more is promised.
#[verifier::external_body]
fn home_dir_string() -> (r: Option<String>)
{
    match dirs::home_dir() {
        Some(p) => Some(p.to_string_lossy().into_owned()),
        None => None,
    }
}

/// Relies on `std::path::Path::exists`: whether the path points at anything
/// on disk, which depends on the filesystem, so nothing more is promised.
#[verifier::external_body]
fn path_exists(path: &str) -> bool {
    std::path::Path::new(path).exists()
}

/// A `~/` prefix replaced by the given home directory, joined with exactly
/// one separator; anything else is returned unchanged.
pub open spec fn expand_tilde_spec(path: Seq<char>, home: Option<Seq<char>>) -> Seq<char> {
    if match_at(path, "~/"@, 0) && home is Some {
        let h = home->Some_0;
        if h.len() > 0 && h.last() == '/' {
            h + path.skip(2)
        } else {
            h + "/"@ + path.skip(2)
        }
    } else {
        path
    }
}

/// Expands a leading `~/` against a known home directory.
pub fn expand_tilde_with(path: &str, home: Option<&String>) -> (r: String)
    ensures
        r@ == expand_tilde_spec(path@, match home {
            Some(h) => Some(h@),
            None => None,
        }),
{
    proof {
        reveal_strlit("~/");
    }
    let is_tilde = starts_with_str(path, "~/");
    match home {
        Some(h) if is_tilde => {
            let len = path.unicode_len();
            let rest = path.substring_char(2, len);
            proof {
                assert(rest@ =~= path@.skip(2));
            }
            let h_len = h.as_str().unicode_len();
            let mut r = h.clone();
            if h_len == 0 || h.as_str().get_char(h_len - 1) != '/' {
                r.append("/");
                proof {
                    reveal_strlit("/");
                    assert(r@ =~= h@ + "/"@);
                }
            }
            r.append(rest);
            proof {
                if h@.len() > 0 && h@.last() == '/' {
                    assert(r@ =~= h@ + path@.skip(2));
                } else {
                    assert(r@ =~= h@ + "/"@ + path@.skip(2));
                }
            }
            r
        },
        _ => {
            let r = String::from_str(path);
            r
        },
    }
}

/// Expands a leading `~/` to the user's home directory; if no home is known
/// the path is returned unchanged.
pub fn expand_tilde(path: &str) -> (r: String)
    ensures
        !match_at(path@, "~/"@, 0) ==> r@ == path@,
{
    proof {
        reveal_strlit("~/");
    }
    let home = home_dir_string();
    let r = expand_tilde_with(path, home.as_ref());
    r
}

/// The extension of the path's file name: what follows the last dot of the
/// last path component, unless the dot begins the name.
pub open spec fn extension_of(path: Seq<char>) -> Option<Seq<char>> {
    let name = match rfind_idx(path, '/') {
        Some(i) => path.skip(i + 1),
        None => path,
    };
    match rfind_idx(name, '.') {
        Some(j) => if j > 0 {
            Some(name.skip(j + 1))
        } else {
            None
        },
        None => None,
    }
}

/// The file extensions that count as pictures.
pub open spec fn is_picture_ext(e: Seq<char>) -> bool {
    let l = lower_seq(e);
    ||| l == "jpg"@
    ||| l == "jpeg"@
    ||| l == "png"@
    ||| l == "bmp"@
    ||| l == "gif"@
    ||| l == "tiff"@
    ||| l == "webp"@
}

/// True when the path names an image file, judged by its extension,
/// case-insensitively: jpg, jpeg, png, bmp, gif, tiff or webp.
pub fn is_picture(file_path: &str) -> (r: bool)
    ensures
        r == (match extension_of(file_path@) {
            Some(e) => is_picture_ext(e),
            None => false,
        }),
{
    let len = file_path.unicode_len();
    let slash = rfind_char(file_path, '/');
    proof {
        crate::text::lemma_rfind_idx(file_path@, '/');
    }
    let name_start: usize = match slash {
        Some(i) => i + 1,
        None => 0,
    };
    let name = file_path.substring_char(name_start, len);
    proof {
        match rfind_idx(file_path@, '/') {
            Some(i) => {
                assert(name@ =~= file_path@.skip(i + 1));
            },
            None => {
                assert(name@ =~= file_path@);
            },
        }
    }
    let name_len = name.unicode_len();
    let dot_found = rfind_char(name, '.');
    proof {
        crate::text::lemma_rfind_idx(name@, '.');
    }
    let dot: usize = match dot_found {
        Some(j) if j > 0 => j,
        _ => {
            return false;
        },
    };
    let ext = name.substring_char(dot + 1, name_len);
    proof {
        assert(ext@ =~= name@.skip(dot + 1));
    }
    let low = to_lower(ext);
    let l = low.as_str();
    str_eq(l, "jpg") || str_eq(l, "jpeg") || str_eq(l, "png") || str_eq(l, "bmp") || str_eq(
        l,
        "gif",
    ) || str_eq(l, "tiff") || str_eq(l, "webp")
}

/// One image file of the candidates, drawn at random, or nothing when no
/// candidate is a picture.
pub fn pick_image_file(file_paths: &Vec<String>) -> (r: Option<String>)
    ensures
        match r {
            Some(p) => file_paths.deep_view().contains(p@) && (match extension_of(p@) {
                Some(e) => is_picture_ext(e),
                None => false,
            }),
            None => forall|k: int|
                0 <= k < file_paths.deep_view().len() ==> (match extension_of(
                    #[trigger] file_paths.deep_view()[k],
                ) {
                    Some(e) => !is_picture_ext(e),
                    None => true,
                }),
        },
{
    let n = file_paths.len();
    let mut images: Vec<String> = Vec::new();
    let mut i: usize = 0;
    while i < n
        invariant
            n == file_paths@.len(),
            i <= n,
            forall|k: int|
                0 <= k < images.deep_view().len() ==> file_paths.deep_view().contains(
                    #[trigger] images.deep_view()[k],
                ),
            forall|k: int|
                0 <= k < images.deep_view().len() ==> (match extension_of(
                    #[trigger] images.deep_view()[k],
                ) {
                    Some(e) => is_picture_ext(e),
                    None => false,
                }),
            images.deep_view().len() == 0 ==> forall|k: int|
                0 <= k < i ==> (match extension_of(#[trigger] file_paths.deep_view()[k]) {
                    Some(e) => !is_picture_ext(e),
                    None => true,
                }),
        decreases n - i,
    {
        proof {
            assert(file_paths.deep_view()[i as int] == file_paths@[i as int]@);
        }
        if is_picture(file_paths[i].as_str()) {
            let ghost prev = images.deep_view();
            let picked = file_paths[i].clone();
            images.push(picked);
            proof {
                assert(images.deep_view() =~= prev.push(file_paths@[i as int]@));
            }
        }
        i += 1;
    }
    if images.len() == 0 {
        return None;
    }
    let idx: usize = random_below(images.len());
    proof {
        assert(images.deep_view()[idx as int] == images@[idx as int]@);
    }
    Some(images[idx].clone())
}

/// True when the string, after tilde expansion, points at anything on disk.
/// What is on disk is the filesystem's business; nothing more is promised.
pub fn is_local_path(to_check: &str) -> (r: bool) {
    let expanded = expand_tilde(to_check);
    path_exists(expanded.as_str())
}

} // verus!
