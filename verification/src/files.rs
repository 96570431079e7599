//! Key files: which ones are meant, and what their content is.

use vstd::prelude::*;

use crate::args::{paths_view, texts};
use crate::errors::{
    CliError, CliErrorView, ReadFailure, ReadFailureView, EXIT_GENERAL, EXIT_NOT_FOUND, EXIT_USAGE,
};
use crate::keys::{private_key_failure, PrivateKey};
use crate::text::{join2, join3};

verus! {

/// The names of the default keys below `~/.ssh`, in the order in which they are
/// tried.
pub fn default_key_names() -> (r: [&'static str; 3])
    ensures
        r@.len() == 3,
        r@[0]@ == "id_ed25519"@,
        r@[1]@ == "id_ecdsa"@,
        r@[2]@ == "id_rsa"@,
{
    ["id_ed25519", "id_ecdsa", "id_rsa"]
}

/// A path with one more name at its end.  The separator is put between them
/// unless the path is empty or already ends with one; a slash always is one.
pub open spec fn path_joined(path: Seq<char>, separator: char, name: Seq<char>) -> Seq<char> {
    if path.len() == 0 || path.last() == separator || path.last() == '/' {
        path + name
    } else {
        path + seq![separator] + name
    }
}

/// A path with one more name at its end.
fn join_path(path: &str, separator: char, name: &str) -> (r: String)
    ensures
        r@ == path_joined(path@, separator, name@),
{
    let len: usize = path.unicode_len();
    let mut out: String = path.to_owned();
    if len > 0 {
        let last: char = path.get_char(len - 1);
        if last != separator && last != '/' {
            out.push(separator);
            assert(out@ =~= path@ + seq![separator]);
        }
    }
    out.append(name);
    out
}

/// The path of a default key below a home directory.
pub open spec fn candidate(home: Seq<char>, separator: char, name: Seq<char>) -> Seq<char> {
    path_joined(path_joined(home, separator, ".ssh"@), separator, name)
}

/// The paths of the default keys below a home directory, whether or not they
/// exist, in the order in which they are tried.
pub open spec fn candidates(home: Seq<char>, separator: char) -> Seq<Seq<char>> {
    seq![
        candidate(home, separator, "id_ed25519"@),
        candidate(home, separator, "id_ecdsa"@),
        candidate(home, separator, "id_rsa"@),
    ]
}

/// The paths of the default keys below a home directory, whether or not they
/// exist, in the order in which they are tried.
pub fn default_key_candidates(home: &str, separator: char) -> (r: Vec<String>)
    ensures
        texts(r@) == candidates(home@, separator),
{
    let names: [&'static str; 3] = default_key_names();
    let folder: String = join_path(home, separator, ".ssh");
    let mut paths: Vec<String> = Vec::new();
    paths.push(join_path(folder.as_str(), separator, names[0]));
    paths.push(join_path(folder.as_str(), separator, names[1]));
    paths.push(join_path(folder.as_str(), separator, names[2]));
    assert(texts(paths@) =~= candidates(home@, separator));
    paths
}

/// The paths that exist, in their order.
pub open spec fn existing(probed: Seq<(Seq<char>, bool)>) -> Seq<Seq<char>>
    decreases probed.len(),
{
    if probed.len() == 0 {
        Seq::empty()
    } else {
        let earlier = existing(probed.drop_last());
        if probed.last().1 {
            earlier.push(probed.last().0)
        } else {
            earlier
        }
    }
}

/// The texts of paths that were probed for existence.
pub open spec fn probed_view(probed: Seq<(String, bool)>) -> Seq<(Seq<char>, bool)> {
    probed.map_values(|entry: (String, bool)| (entry.0@, entry.1))
}

/// The default keys: those of the candidates that exist.  Without a home
/// directory there are no candidates.
pub open spec fn default_keys(probed: Option<Seq<(Seq<char>, bool)>>) -> core::result::Result<
    Seq<Seq<char>>,
    CliErrorView,
> {
    match probed {
        None => Err(CliErrorView::InvalidConfig("cannot determine $HOME"@)),
        Some(probed) => if existing(probed).len() == 0 {
            Err(CliErrorView::NoKeyFound)
        } else {
            Ok(existing(probed))
        },
    }
}

/// The default keys, from the candidates below the home directory and whether
/// each of them exists.
pub fn default_key_paths(probed: Option<Vec<(String, bool)>>) -> (r: core::result::Result<
    Vec<String>,
    CliError,
>)
    ensures
        paths_view(r) == default_keys(
            (match probed {
                Some(probed) => Some(probed_view(probed@)),
                None => None,
            }),
        ),
{
    let probed: Vec<(String, bool)> = match probed {
        Some(probed) => probed,
        None => {
            return Err(CliError::InvalidConfig("cannot determine $HOME".to_owned()));
        },
    };
    let ghost all = probed_view(probed@);
    let mut found: Vec<String> = Vec::new();
    let mut i: usize = 0;
    assert(texts(found@) =~= existing(all.take(0)));
    while i < probed.len()
        invariant
            i <= probed@.len(),
            all == probed_view(probed@),
            texts(found@) == existing(all.take(i as int)),
        decreases probed@.len() - i,
    {
        assert(all.take(i + 1).drop_last() =~= all.take(i as int));
        let ghost earlier = texts(found@);
        if probed[i].1 {
            found.push(probed[i].0.clone());
            assert(texts(found@) =~= earlier.push(all[i as int].0));
        }
        i += 1;
    }
    assert(all.take(i as int) =~= all);
    if found.is_empty() {
        assert(texts(found@).len() == 0);
        return Err(CliError::NoKeyFound);
    }
    assert(texts(found@).len() > 0);
    Ok(found)
}

/// The key files to operate on: the given ones, or the default keys where none
/// is given.
pub open spec fn resolved(
    files: Seq<Seq<char>>,
    probed: Option<Seq<(Seq<char>, bool)>>,
) -> core::result::Result<Seq<Seq<char>>, CliErrorView> {
    if files.len() > 0 {
        Ok(files)
    } else {
        default_keys(probed)
    }
}

/// Resolves the key paths to operate on, defaulting to the standard identities
/// when none are given.
pub fn resolve_paths(files: Vec<String>, probed: Option<Vec<(String, bool)>>) -> (r:
    core::result::Result<Vec<String>, CliError>)
    ensures
        paths_view(r) == resolved(
            texts(files@),
            (match probed {
                Some(probed) => Some(probed_view(probed@)),
                None => None,
            }),
        ),
{
    assert(texts(files@).len() == files@.len());
    if !files.is_empty() {
        return Ok(files);
    }
    default_key_paths(probed)
}

/// The default keys are never an empty list: where no candidate exists, that is
/// an error.
pub proof fn default_keys_are_never_empty(probed: Option<Seq<(Seq<char>, bool)>>)
    ensures
        default_keys(probed) matches Ok(paths) ==> paths.len() > 0,
{
}

/// The message of a file that does not hold a private key.
pub open spec fn parse_message(path: Seq<char>, why: Seq<char>) -> Seq<char> {
    "cannot parse "@ + path + ": "@ + why
}

/// The content of a file, or why it cannot be read.
pub type Content = core::result::Result<String, ReadFailure>;

/// The text of a [`Content`].
pub type ContentView = core::result::Result<Seq<char>, ReadFailureView>;

/// The text of the content of a file.
pub open spec fn content_text(content: Content) -> ContentView {
    match content {
        Ok(text) => Ok(text@),
        Err(failure) => Err(failure@),
    }
}

/// The key in a file, given the content of the file: a message where there is
/// none.
pub open spec fn key_in(path: Seq<char>, content: ContentView) -> core::result::Result<
    Seq<char>,
    Seq<char>,
> {
    match content {
        Err(failure) => Err("cannot read "@ + path + ": "@ + failure.why),
        Ok(pem) => match private_key_failure(pem) {
            Some(why) => Err(parse_message(path, why)),
            None => Ok(pem),
        },
    }
}

/// Parses a private key, returning a human-readable message on failure.
pub fn read_key(path: &str, content: Content) -> (r: core::result::Result<PrivateKey, String>)
    ensures
        (match r {
            Ok(key) => Ok(key@),
            Err(message) => Err(message@),
        }) == key_in(path@, content_text(content)),
{
    let pem: String = match content {
        Ok(pem) => pem,
        Err(failure) => {
            return Err(join2(join3("cannot read ", path, ": ").as_str(), failure.why.as_str()));
        },
    };
    match PrivateKey::from_openssh(pem.as_str()) {
        Ok(key) => Ok(key),
        Err(why) => Err(join2(join3("cannot parse ", path, ": ").as_str(), why.as_str())),
    }
}

/// The exit code of a file that gives no key: that of the read failure where it
/// cannot be read, and a usage error where it holds something else.
pub open spec fn no_key_code(content: ContentView) -> u32 {
    match content {
        Err(failure) => CliErrorView::Unreadable(failure).code(),
        Ok(_) => EXIT_USAGE,
    }
}

/// The exit code of a file that gives no key.
pub fn no_key_exit(content: &Content) -> (r: u32)
    ensures
        r == no_key_code(content_text(*content)),
{
    match content {
        Err(failure) => if failure.missing {
            EXIT_NOT_FOUND
        } else {
            EXIT_GENERAL
        },
        Ok(_) => EXIT_USAGE,
    }
}

/// Between a path and a name stands one separator: it is added where the path does
/// not end with one, and only there.
pub proof fn paths_are_joined_by_one_separator(path: Seq<char>, separator: char, name: Seq<char>)
    ensures
        path_joined(Seq::empty(), separator, name) == name,
        path_joined(path.push('/'), separator, name) == path.push('/') + name,
        path_joined(path.push(separator), separator, name) == path.push(separator) + name,
        path.len() > 0 && path.last() != '/' && path.last() != separator ==> path_joined(
            path,
            separator,
            name,
        ) == path.push(separator) + name,
        path.len() > 0 && path.last() != '/' && path.last() != separator ==> path_joined(
            path,
            separator,
            name,
        ) == path_joined(path.push(separator), separator, name),
{
    assert(Seq::<char>::empty() + name =~= name);
    assert(path + seq![separator] =~= path.push(separator));
}

/// The default keys stand in the folder `.ssh` of the home directory: first the
/// Ed25519 key, then the ECDSA key, then the RSA key.
pub proof fn default_keys_stand_below_home(home: Seq<char>, separator: char)
    requires
        separator != 'h',
    ensures
        ({
            let folder = if home.len() == 0 || home.last() == '/' || home.last() == separator {
                home + ".ssh"@ + seq![separator]
            } else {
                home + seq![separator] + ".ssh"@ + seq![separator]
            };
            &&& candidates(home, separator).len() == 3
            &&& candidates(home, separator)[0] == folder + "id_ed25519"@
            &&& candidates(home, separator)[1] == folder + "id_ecdsa"@
            &&& candidates(home, separator)[2] == folder + "id_rsa"@
        }),
{
    reveal_strlit(".ssh");
    let inner = path_joined(home, separator, ".ssh"@);
    assert(inner.last() == 'h');
}

/// A path is taken exactly if it exists, whatever the others do, and the order of
/// the paths is kept.
pub proof fn existing_paths_are_kept(
    some: Seq<(Seq<char>, bool)>,
    others: Seq<(Seq<char>, bool)>,
    path: Seq<char>,
)
    ensures
        existing(some + others) == existing(some) + existing(others),
        existing(seq![(path, true)]) == seq![path],
        existing(seq![(path, false)]) == Seq::<Seq<char>>::empty(),
        existing(some).contains(path) <==> some.contains((path, true)),
    decreases others.len(),
{
    let all = some + others;
    if others.len() == 0 {
        assert(all =~= some);
        assert(existing(some) + Seq::<Seq<char>>::empty() =~= existing(some));
    } else {
        existing_paths_are_kept(some, others.drop_last(), path);
        assert(all.drop_last() =~= some + others.drop_last());
        assert(all.last() == others.last());
        assert(existing(all) =~= existing(some) + existing(others));
    }
    let one = seq![(path, true)];
    let none = seq![(path, false)];
    assert(one.drop_last() =~= Seq::empty());
    assert(none.drop_last() =~= Seq::empty());
    assert(existing(one.drop_last()) =~= Seq::empty());
    assert(existing(none.drop_last()) =~= Seq::empty());
    assert(existing(one) =~= seq![path]);
    lemma_existing_contains(some, path);
}

proof fn lemma_existing_contains(probed: Seq<(Seq<char>, bool)>, path: Seq<char>)
    ensures
        existing(probed).contains(path) <==> probed.contains((path, true)),
    decreases probed.len(),
{
    if probed.len() > 0 {
        let rest = probed.drop_last();
        let earlier = existing(rest);
        lemma_existing_contains(rest, path);
        if existing(probed).contains(path) {
            let i = choose|i: int|
                0 <= i < existing(probed).len() && existing(probed)[i] == path;
            if i < earlier.len() {
                assert(earlier[i] == path);
                let j = choose|j: int| 0 <= j < rest.len() && rest[j] == (path, true);
                assert(probed[j] == (path, true));
            } else {
                assert(probed[probed.len() - 1] == (path, true));
            }
        }
        if probed.contains((path, true)) {
            let j = choose|j: int| 0 <= j < probed.len() && probed[j] == (path, true);
            if j < rest.len() {
                assert(rest[j] == (path, true));
                let i = choose|i: int| 0 <= i < earlier.len() && earlier[i] == path;
                assert(existing(probed)[i] == path);
            } else {
                assert(existing(probed)[earlier.len() as int] == path);
            }
        }
    }
}

/// The files that a command works on are the given ones, all of them and in their
/// order; only where none is given are the existing default keys taken, and where
/// there are none of those either, or no home directory, that is an error.
pub proof fn given_files_come_first(
    files: Seq<Seq<char>>,
    probed: Option<Seq<(Seq<char>, bool)>>,
)
    ensures
        files.len() > 0 ==> resolved(files, probed) == Ok::<Seq<Seq<char>>, CliErrorView>(files),
        files.len() == 0 ==> match resolved(files, probed) {
            Ok(paths) => probed matches Some(list) && paths == existing(list) && paths.len() > 0,
            Err(error) => match probed {
                None => error == CliErrorView::InvalidConfig("cannot determine $HOME"@),
                Some(list) => error == CliErrorView::NoKeyFound && forall|i: int|
                    0 <= i < list.len() ==> !(#[trigger] list[i]).1,
            },
        },
{
    if probed is Some {
        let list = probed->0;
        if existing(list).len() == 0 {
            assert forall|i: int| 0 <= i < list.len() implies !(#[trigger] list[i]).1 by {
                lemma_existing_contains(list, list[i].0);
                if list[i].1 {
                    assert(list[i] == (list[i].0, true));
                    assert(existing(list).contains(list[i].0));
                }
            }
        }
    }
}

/// A file gives a key exactly if it can be read and its text is a private key; the
/// key is that text.  Any other file gives a message that names it and says why.
pub proof fn files_give_their_key(path: Seq<char>, content: ContentView)
    ensures
        key_in(path, content) is Ok <==> (content matches Ok(pem) && private_key_failure(
            pem,
        ) is None),
        key_in(path, content) matches Ok(pem) ==> content == Ok::<Seq<char>, ReadFailureView>(pem),
        key_in(path, content) matches Err(message) ==> match content {
            Err(failure) => message == "cannot read "@ + path + ": "@ + failure.why,
            Ok(pem) => private_key_failure(pem) matches Some(why) && message == "cannot parse "@
                + path + ": "@ + why,
        },
        no_key_code(content) == (match content {
            Err(failure) => if failure.missing {
                3u32
            } else {
                1
            },
            Ok(_) => 2,
        }),
{
}

/// The names of the default keys, in the order in which they are tried.
pub proof fn the_default_keys_by_name(names: [&'static str; 3])
    requires
        call_ensures(default_key_names, (), names),
    ensures
        names@[0]@ == "id_ed25519"@,
        names@[1]@ == "id_ecdsa"@,
        names@[2]@ == "id_rsa"@,
{
}

} // verus!
