//! The single-instance hand-over: where an instance listens, how other
//! instances recognise its socket, and what a received message means.

use vstd::prelude::*;
use crate::paths::{kept_segments, path_components, path_file_name, same_path, root_part, current_part};
use crate::text::{
    chars_of, decimal, decimal_chars, ends_with, has_prefix, has_suffix, starts_with,
    string_of, trim, trim_chars, split, Sep, is_sep, lemma_split_concat, lemma_split_no_sep,
    lemma_decimal_digits,
};

verus! {

pub open spec fn socket_prefix() -> Seq<char> {
    "waveplayer-"@
}

pub open spec fn socket_suffix() -> Seq<char> {
    ".sock"@
}

pub open spec fn socket_dir() -> Seq<char> {
    "/tmp/"@
}

/// The socket of the instance with process id `pid`.
pub open spec fn socket_path_spec(pid: u32) -> Seq<char> {
    socket_dir() + socket_prefix() + decimal(pid as nat) + socket_suffix()
}

/// The path of the socket that the instance with process id `pid` listens
/// on: `/tmp/waveplayer-<pid>.sock`.
pub fn socket_path(pid: u32) -> (s: String)
    ensures
        s@ == socket_path_spec(pid),
{
    let mut s = String::new();
    s.append("/tmp/");
    s.append("waveplayer-");
    let digits = string_of(&decimal_chars(pid as u64));
    s.append(digits.as_str());
    s.append(".sock");
    s
}

/// Whether a file name in `/tmp` is the socket of some instance.
pub fn is_socket_name(name: &str) -> (b: bool)
    ensures
        b == (has_prefix(name@, socket_prefix()) && has_suffix(name@, socket_suffix())),
{
    let n = chars_of(name);
    starts_with(&n, &chars_of("waveplayer-")) && ends_with(&n, &chars_of(".sock"))
}

/// What a received message asks to open: its trimmed text, unless that is
/// empty or names the path this instance was started with.
pub open spec fn accepted_message(received: Seq<char>, own_path: Option<Seq<char>>) -> Option<
    Seq<char>,
> {
    let t = trim(received);
    if t.len() == 0 {
        None
    } else {
        match own_path {
            Some(own) => if path_components(t) == path_components(own) {
                None
            } else {
                Some(t)
            },
            None => Some(t),
        }
    }
}

pub open spec fn str_view(o: Option<&str>) -> Option<Seq<char>> {
    match o {
        Some(s) => Some(s@),
        None => None,
    }
}

/// The path that a message from another instance asks this one to open:
/// the message trimmed, unless it is empty or the same path as `own_path`,
/// the path this instance was started with.
pub fn accept_message(received: &str, own_path: Option<&str>) -> (r: Option<String>)
    ensures
        match r {
            Some(p) => accepted_message(received@, str_view(own_path)) == Some(p@),
            None => accepted_message(received@, str_view(own_path)) is None,
        },
{
    let t = trim_chars(&chars_of(received));
    if t.len() == 0 {
        return None;
    }
    let text = string_of(&t);
    match own_path {
        Some(own) => {
            if same_path(text.as_str(), own) {
                None
            } else {
                Some(text)
            }
        },
        None => Some(text),
    }
}


/// The file name of an instance's socket.
pub open spec fn socket_name_spec(pid: u32) -> Seq<char> {
    socket_prefix() + decimal(pid as nat) + socket_suffix()
}

/// Every instance finds the socket of any other: the socket path of a
/// process lies in `/tmp`, and its file name is one that `is_socket_name`
/// accepts.
pub proof fn lemma_socket_found(pid: u32)
    ensures
        path_file_name(socket_path_spec(pid)) == Some(socket_name_spec(pid)),
        has_prefix(socket_name_spec(pid), socket_prefix()),
        has_suffix(socket_name_spec(pid), socket_suffix()),
{
    reveal_strlit("/tmp/");
    reveal_strlit("waveplayer-");
    reveal_strlit(".sock");
    let name = socket_name_spec(pid);
    let d = decimal(pid as nat);
    lemma_decimal_digits(pid as nat);
    assert(name.take(socket_prefix().len() as int) =~= socket_prefix());
    assert(name.skip(name.len() - socket_suffix().len()) =~= socket_suffix());
    assert forall|i: int| 0 <= i < name.len() implies !is_sep(Sep::Slash, #[trigger] name[i]) by {
        let pl = socket_prefix().len() as int;
        if i < pl {
            assert(name[i] == socket_prefix()[i]);
        } else if i < pl + d.len() {
            assert(name[i] == d[i - pl]);
        } else {
            assert(name[i] == socket_suffix()[i - pl - d.len()]);
        }
    }
    lemma_split_no_sep(name, Sep::Slash);
    let tmp = seq!['t', 'm', 'p'];
    lemma_split_no_sep(tmp, Sep::Slash);
    lemma_split_no_sep(Seq::<char>::empty(), Sep::Slash);
    let p = socket_path_spec(pid);
    assert(p =~= Seq::<char>::empty() + seq!['/'] + (tmp + seq!['/'] + name));
    lemma_split_concat(tmp, '/', name, Sep::Slash);
    lemma_split_concat(Seq::<char>::empty(), '/', tmp + seq!['/'] + name, Sep::Slash);
    let segs = split(p, Sep::Slash);
    assert(segs =~= seq![Seq::<char>::empty(), tmp, name]);
    assert(segs.drop_first() =~= seq![tmp, name]);
    assert(seq![tmp, name].drop_last() =~= seq![tmp]);
    assert(seq![tmp].drop_last() =~= Seq::<Seq<char>>::empty());
    assert(tmp != current_part()) by {
        assert(tmp.len() != current_part().len());
    }
    assert(name.len() > 2);
    assert(kept_segments(Seq::<Seq<char>>::empty()) =~= Seq::<Seq<char>>::empty());
    assert(seq![tmp].last() == tmp);
    assert(seq![tmp, name].last() == name);
    assert(name != current_part()) by {
        assert(name.len() != current_part().len());
    }
    assert(kept_segments(seq![tmp]) =~= seq![tmp]);
    assert(kept_segments(seq![tmp, name]) =~= seq![tmp, name]);
    let c = path_components(p);
    assert(c =~= seq![root_part(), tmp, name]);
    assert(c.last() == name);
}

/// A message is opened as its trimmed text unless that is empty; a message
/// naming the path this instance was started with is never opened again.
pub proof fn lemma_message_handling(received: Seq<char>, own: Seq<char>)
    ensures
        trim(received).len() > 0 ==> accepted_message(received, None) == Some(trim(received)),
        trim(received).len() == 0 ==> accepted_message(received, Some(own)) is None
            && accepted_message(received, None) is None,
        accepted_message(received, Some(trim(received))) is None,
        accepted_message(received, Some(own)) is Some ==> accepted_message(received, Some(own))
            == Some(trim(received)) && path_components(trim(received)) != path_components(own),
{
}

} // verus!
