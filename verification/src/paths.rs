//! Paths as text, with `/` between components.
//!
//! A file is known by its path relative to the sync folder. On disk it stands
//! at the folder's path with the components pushed one by one, or, encrypted,
//! beside that under its name with `.vit` appended.
use crate::text::{
    concat2, concat3, contains_text, ends_with, from_chars, join, join_texts,
    law_join_undoes_split, occurs, occurs_at, owned, same_text, split, split_text,
    starts_with, text_ends_with, text_starts_with, texts, to_chars,
};
use vstd::prelude::*;

verus! {

/// A path with one component more.
pub open spec fn path_push(path: Seq<char>, component: Seq<char>) -> Seq<char> {
    if path.len() > 0 && path.last() != '/' {
        path + "/"@ + component
    } else {
        path + component
    }
}

/// A path with several components more.
pub open spec fn path_push_all(path: Seq<char>, components: Seq<Seq<char>>) -> Seq<char>
    decreases components.len(),
{
    if components.len() == 0 {
        path
    } else {
        path_push(path_push_all(path, components.drop_last()), components.last())
    }
}

/// Where a relative path leads from `root`.
pub open spec fn absolute(root: Seq<char>, rel: Seq<char>) -> Seq<char> {
    path_push_all(root, split(rel, '/'))
}

/// Where a path leads from `root`: an absolute path to itself.
pub open spec fn joined(root: Seq<char>, path: Seq<char>) -> Seq<char> {
    if path.len() > 0 && path[0] == '/' {
        path
    } else {
        path_push(root, path)
    }
}

/// A path without the slashes and single dots at its end.
pub open spec fn trimmed(path: Seq<char>) -> Seq<char>
    decreases path.len(),
{
    if path.len() > 0 && path.last() == '/' {
        trimmed(path.drop_last())
    } else if path.len() > 1 && path.last() == '.' && path[path.len() - 2] == '/' {
        trimmed(path.drop_last())
    } else {
        path
    }
}

/// The length of a path up to and with its last slash.
pub open spec fn dir_len(path: Seq<char>) -> nat
    decreases path.len(),
{
    if path.len() == 0 {
        0
    } else if path.last() == '/' {
        path.len()
    } else {
        dir_len(path.drop_last())
    }
}

/// The last component of a path.
pub open spec fn last_component(path: Seq<char>) -> Seq<char> {
    trimmed(path).skip(dir_len(trimmed(path)) as int)
}

/// The last component names a file or a folder.
pub open spec fn has_file_name(path: Seq<char>) -> bool {
    let name = last_component(path);
    name.len() > 0 && name != "."@ && name != ".."@
}

/// The path with another last component.
pub open spec fn with_file_name(path: Seq<char>, name: Seq<char>) -> Seq<char> {
    let dir = trimmed(path).take(dir_len(trimmed(path)) as int);
    if dir.len() == 0 {
        name
    } else if trimmed(dir).len() == 0 {
        "/"@ + name
    } else {
        trimmed(dir) + "/"@ + name
    }
}

/// Where the encrypted form of a file stands.
pub open spec fn vault_path(path: Seq<char>) -> Seq<char> {
    with_file_name(path, last_component(path) + ".vit"@)
}

/// The file is a container, by its extension.
pub open spec fn is_vault_path(path: Seq<char>) -> bool {
    has_file_name(path) && last_component(path).len() > ".vit"@.len() && ends_with(
        last_component(path),
        ".vit"@,
    )
}

/// A relative path that might lead out of its folder.
pub open spec fn leads_out(rel: Seq<char>) -> bool {
    occurs(rel, ".."@) || starts_with(rel, "/"@) || occurs(rel, "\\"@)
}

/// The components of the first `n` pieces between slashes: the root if the path
/// begins there, and no empty pieces or single dots but a leading dot.
pub open spec fn components_of(pieces: Seq<Seq<char>>, n: nat) -> Seq<Seq<char>>
    decreases n,
{
    if n == 0 {
        Seq::empty()
    } else {
        let piece = pieces[n - 1];
        let before = components_of(pieces, (n - 1) as nat);
        if n == 1 {
            if piece.len() > 0 {
                before.push(piece)
            } else if pieces.len() > 1 {
                before.push("/"@)
            } else {
                before
            }
        } else if piece.len() == 0 || piece == "."@ {
            before
        } else {
            before.push(piece)
        }
    }
}

/// The components of a path.
pub open spec fn components(path: Seq<char>) -> Seq<Seq<char>> {
    components_of(split(path, '/'), split(path, '/').len())
}

/// The components that lead from `root` to `path`, if it leads there.
pub open spec fn remainder(root: Seq<char>, path: Seq<char>) -> Option<Seq<Seq<char>>> {
    let r = components(root);
    let p = components(path);
    if r.len() <= p.len() && p.take(r.len() as int) == r {
        Some(p.skip(r.len() as int))
    } else {
        None
    }
}

/// The first `n` components without single dots, and without those that a `..` goes
/// back from. Above the root there is nothing to go back to.
pub open spec fn normal_of(parts: Seq<Seq<char>>, n: nat) -> Seq<Seq<char>>
    decreases n,
{
    if n == 0 {
        Seq::empty()
    } else {
        let part = parts[n - 1];
        let before = normal_of(parts, (n - 1) as nat);
        if part == "."@ {
            before
        } else if part != ".."@ || before.len() == 0 || before.last() == ".."@ {
            before.push(part)
        } else if before.last() == "/"@ {
            before
        } else {
            before.drop_last()
        }
    }
}

/// The normal form of a path.
pub open spec fn normal(path: Seq<char>) -> Seq<Seq<char>> {
    normal_of(components(path), components(path).len())
}

/// The normal form of `path` goes on from that of `root`, and downwards.
pub open spec fn stays_below(root: Seq<char>, path: Seq<char>) -> bool {
    let r = normal(root);
    let p = normal(path);
    &&& r.len() < p.len()
    &&& p.take(r.len() as int) == r
    &&& p[r.len() as int] != ".."@
    &&& p[r.len() as int] != "/"@
}

/// The path from `root` to `path`, if it leads there and is not empty.
pub open spec fn relative(root: Seq<char>, path: Seq<char>) -> Option<Seq<char>> {
    match remainder(root, path) {
        Some(rest) => if join(rest, "/"@).len() == 0 {
            None
        } else {
            Some(join(rest, "/"@))
        },
        None => None,
    }
}

fn push_component(path: &String, component: &str) -> (r: String)
    ensures
        r@ == path_push(path@, component@),
{
    let chars = to_chars(path.as_str());
    if chars.len() > 0 && chars[chars.len() - 1] != '/' {
        concat3(path.as_str(), "/", component)
    } else {
        concat2(path.as_str(), component)
    }
}

/// Where a path leads from `root`: an absolute path to itself.
pub fn join_path(root: &str, path: &str) -> (r: String)
    ensures
        r@ == joined(root@, path@),
{
    let chars = to_chars(path);
    if chars.len() > 0 && chars[0] == '/' {
        owned(path)
    } else {
        push_component(&owned(root), path)
    }
}

/// Where a relative path leads from `root`.
pub fn rel_to_abs(root: &str, rel: &str) -> (r: String)
    ensures
        r@ == absolute(root@, rel@),
{
    let parts = split_text(rel, '/');
    let mut p = owned(root);
    let mut i: usize = 0;
    let ghost all = texts(parts@);
    assert(all.take(0) =~= Seq::empty());
    while i < parts.len()
        invariant
            all == texts(parts@),
            i <= parts@.len(),
            p@ == path_push_all(root@, all.take(i as int)),
        decreases parts.len() - i,
    {
        assert(all.take(i + 1).drop_last() =~= all.take(i as int));
        p = push_component(&p, parts[i].as_str());
        i = i + 1;
    }
    assert(all.take(i as int) =~= all);
    p
}

fn trim_path(path: &str) -> (r: String)
    ensures
        r@ == trimmed(path@),
{
    let chars = to_chars(path);
    let mut n: usize = chars.len();
    assert(chars@.take(n as int) =~= path@);
    while n > 0 && (chars[n - 1] == '/' || (n > 1 && chars[n - 1] == '.' && chars[n - 2] == '/'))
        invariant
            n <= chars@.len(),
            trimmed(chars@.take(n as int)) == trimmed(path@),
        decreases n,
    {
        assert(chars@.take(n as int).drop_last() =~= chars@.take(n - 1));
        n = n - 1;
    }
    from_chars(&chars, 0, n)
}

fn last_slash(path: &str) -> (r: usize)
    ensures
        r == dir_len(path@),
        r <= path@.len(),
{
    let chars = to_chars(path);
    let mut n: usize = chars.len();
    assert(chars@.take(n as int) =~= path@);
    while n > 0 && chars[n - 1] != '/'
        invariant
            n <= chars@.len(),
            chars@ == path@,
            dir_len(chars@.take(n as int)) == dir_len(path@),
        decreases n,
    {
        assert(chars@.take(n as int).drop_last() =~= chars@.take(n - 1));
        n = n - 1;
    }
    n
}

/// The last component of a path, if it names a file or a folder.
pub fn file_name(path: &str) -> (r: Option<String>)
    ensures
        r is Some <==> has_file_name(path@),
        r matches Some(name) ==> name@ == last_component(path@),
{
    let t = trim_path(path);
    let n = last_slash(t.as_str());
    let chars = to_chars(t.as_str());
    let name = from_chars(&chars, n, chars.len());
    assert(name@ =~= last_component(path@));
    if name.as_str().is_empty() || same_text(name.as_str(), ".") || same_text(
        name.as_str(),
        "..",
    ) {
        None
    } else {
        Some(name)
    }
}

/// The path with another last component.
pub fn set_file_name(path: &str, name: &str) -> (r: String)
    ensures
        r@ == with_file_name(path@, name@),
{
    let t = trim_path(path);
    let n = last_slash(t.as_str());
    let chars = to_chars(t.as_str());
    let dir = from_chars(&chars, 0, n);
    assert(dir@ =~= trimmed(path@).take(dir_len(trimmed(path@)) as int));
    if dir.as_str().is_empty() {
        return owned(name);
    }
    let parent = trim_path(dir.as_str());
    if parent.as_str().is_empty() {
        concat2("/", name)
    } else {
        concat3(parent.as_str(), "/", name)
    }
}

/// Where the encrypted form of a file stands.
pub fn rel_to_vault_abs(root: &str, rel: &str) -> (r: String)
    requires
        has_file_name(absolute(root@, rel@)),
    ensures
        r@ == vault_path(absolute(root@, rel@)),
{
    let p = rel_to_abs(root, rel);
    match file_name(p.as_str()) {
        Some(name) => set_file_name(p.as_str(), concat2(name.as_str(), ".vit").as_str()),
        None => p,
    }
}

/// Whether a relative path might lead out of its folder.
pub fn unsafe_rel_path(rel: &str) -> (r: bool)
    ensures
        r == leads_out(rel@),
{
    contains_text(rel, "..") || text_starts_with(rel, "/") || contains_text(rel, "\\")
}

/// Whether a path is that of a container.
pub fn has_vault_extension(path: &str) -> (r: bool)
    ensures
        r == is_vault_path(path@),
{
    match file_name(path) {
        Some(name) => {
            to_chars(name.as_str()).len() > to_chars(".vit").len() && text_ends_with(
                name.as_str(),
                ".vit",
            )
        },
        None => false,
    }
}

fn path_components(path: &str) -> (r: Vec<String>)
    ensures
        texts(r@) == components(path@),
{
    let pieces = split_text(path, '/');
    let mut out: Vec<String> = Vec::new();
    let mut i: usize = 0;
    let ghost all = texts(pieces@);
    assert(texts(out@) =~= Seq::empty());
    while i < pieces.len()
        invariant
            all == texts(pieces@),
            i <= pieces@.len(),
            texts(out@) == components_of(all, i as nat),
        decreases pieces.len() - i,
    {
        let ghost before = texts(out@);
        assert(all[i as int] == pieces@[i as int]@);
        if i == 0 {
            if !pieces[i].as_str().is_empty() {
                out.push(pieces[i].clone());
                assert(texts(out@) =~= before.push(all[i as int]));
            } else if pieces.len() > 1 {
                out.push(owned("/"));
                assert(texts(out@) =~= before.push("/"@));
            }
        } else if !pieces[i].as_str().is_empty() && !same_text(pieces[i].as_str(), ".") {
            out.push(pieces[i].clone());
            assert(texts(out@) =~= before.push(all[i as int]));
        }
        i = i + 1;
    }
    out
}

fn normal_components(path: &str) -> (r: Vec<String>)
    ensures
        texts(r@) == normal(path@),
{
    let parts = path_components(path);
    let mut out: Vec<String> = Vec::new();
    let mut i: usize = 0;
    let ghost all = texts(parts@);
    assert(texts(out@) =~= Seq::empty());
    while i < parts.len()
        invariant
            all == texts(parts@),
            i <= parts@.len(),
            texts(out@) == normal_of(all, i as nat),
        decreases parts.len() - i,
    {
        let ghost before = texts(out@);
        assert(all[i as int] == parts@[i as int]@);
        let n = out.len();
        assert(n > 0 ==> before.last() == out@[n - 1]@);
        if !same_text(parts[i].as_str(), ".") {
            if !same_text(parts[i].as_str(), "..") || n == 0 || same_text(
                out[n - 1].as_str(),
                "..",
            ) {
                out.push(parts[i].clone());
                assert(texts(out@) =~= before.push(all[i as int]));
            } else if !same_text(out[n - 1].as_str(), "/") {
                out.pop();
                assert(texts(out@) =~= before.drop_last());
            }
        }
        i = i + 1;
    }
    out
}

/// Whether the normal form of `path` goes on from that of `root`, and downwards.
pub fn is_below(root: &str, path: &str) -> (r: bool)
    ensures
        r == stays_below(root@, path@),
{
    let rc = normal_components(root);
    let pc = normal_components(path);
    let ghost r = texts(rc@);
    let ghost p = texts(pc@);
    if rc.len() >= pc.len() {
        return false;
    }
    let mut i: usize = 0;
    while i < rc.len()
        invariant
            r == texts(rc@),
            p == texts(pc@),
            r == normal(root@),
            p == normal(path@),
            i <= rc@.len() < pc@.len(),
            forall|j: int| 0 <= j < i ==> r[j] == p[j],
        decreases rc.len() - i,
    {
        if !same_text(rc[i].as_str(), pc[i].as_str()) {
            assert(r[i as int] != p[i as int]);
            assert(p.take(r.len() as int)[i as int] != r[i as int]);
            return false;
        }
        i = i + 1;
    }
    assert(p.take(r.len() as int) =~= r);
    assert(p[i as int] == pc@[i as int]@);
    !same_text(pc[i].as_str(), "..") && !same_text(pc[i].as_str(), "/")
}

/// The path from `root` to `path`, if it leads there; empty if they are the same.
pub fn rest_of_path(root: &str, path: &str) -> (r: Option<String>)
    ensures
        match r {
            Some(rel) => remainder(root@, path@) matches Some(rest) && rel@ == join(rest, "/"@),
            None => remainder(root@, path@) is None,
        },
{
    let rc = path_components(root);
    let pc = path_components(path);
    let ghost r = texts(rc@);
    let ghost p = texts(pc@);
    if rc.len() > pc.len() {
        return None;
    }
    let mut i: usize = 0;
    while i < rc.len()
        invariant
            r == texts(rc@),
            p == texts(pc@),
            r == components(root@),
            p == components(path@),
            i <= rc@.len() <= pc@.len(),
            forall|j: int| 0 <= j < i ==> r[j] == p[j],
        decreases rc.len() - i,
    {
        if !same_text(rc[i].as_str(), pc[i].as_str()) {
            assert(r[i as int] != p[i as int]);
            assert(p.take(r.len() as int)[i as int] != r[i as int]);
            return None;
        }
        i = i + 1;
    }
    assert(p.take(r.len() as int) =~= r);
    let mut rest: Vec<String> = Vec::new();
    while i < pc.len()
        invariant
            p == texts(pc@),
            rc@.len() <= i <= pc@.len(),
            texts(rest@) == p.subrange(rc@.len() as int, i as int),
        decreases pc.len() - i,
    {
        let ghost before = texts(rest@);
        rest.push(pc[i].clone());
        i = i + 1;
        assert(texts(rest@) =~= before.push(p[i - 1]));
        assert(texts(rest@) =~= p.subrange(rc@.len() as int, i as int));
    }
    assert(texts(rest@) =~= p.skip(r.len() as int));
    Some(join_texts(&rest, "/"))
}

/// The path from `root` to `path`, if it leads there and is not empty.
pub fn relative_path(root: &str, path: &str) -> (r: Option<String>)
    ensures
        match r {
            Some(rel) => relative(root@, path@) == Some(rel@),
            None => relative(root@, path@) is None,
        },
{
    match rest_of_path(root, path) {
        Some(rel) => if rel.as_str().is_empty() {
            None
        } else {
            Some(rel)
        },
        None => None,
    }
}

proof fn lemma_split_is_not_empty(s: Seq<char>)
    ensures
        split(s, '/').len() > 0,
    decreases s.len(),
{
    if s.len() > 0 {
        lemma_split_is_not_empty(s.drop_last());
    }
}

proof fn lemma_split_at_slash(a: Seq<char>, b: Seq<char>)
    ensures
        split(a.push('/') + b, '/') == split(a, '/') + split(b, '/'),
    decreases b.len(),
{
    let whole = a.push('/') + b;
    lemma_split_is_not_empty(b);
    if b.len() == 0 {
        assert(whole.drop_last() =~= a);
        assert(split(whole, '/') =~= split(a, '/') + split(b, '/'));
    } else {
        assert(whole.drop_last() =~= a.push('/') + b.drop_last());
        lemma_split_at_slash(a, b.drop_last());
        lemma_split_is_not_empty(b.drop_last());
        assert(split(whole, '/') =~= split(a, '/') + split(b, '/'));
    }
}

proof fn lemma_pieces_hold_no_slash(s: Seq<char>, i: int)
    requires
        0 <= i < split(s, '/').len(),
    ensures
        split(s, '/')[i] != "/"@,
        !split(s, '/')[i].contains('/'),
    decreases s.len(),
{
    reveal_strlit("/");
    assert("/"@[0] == '/');
    assert("/"@.contains('/'));
    if s.len() > 0 {
        let head = split(s.drop_last(), '/');
        lemma_split_is_not_empty(s.drop_last());
        if s.last() == '/' {
            if i < head.len() {
                lemma_pieces_hold_no_slash(s.drop_last(), i);
            }
        } else {
            lemma_pieces_hold_no_slash(s.drop_last(), i);
            let piece = split(s, '/')[i];
            if piece.contains('/') {
                let j = choose|j: int| 0 <= j < piece.len() && piece[j] == '/';
                assert(head[i][j] == '/');
            }
        }
    }
}

proof fn lemma_first_piece(s: Seq<char>)
    requires
        s.len() > 0,
    ensures
        (split(s, '/')[0].len() == 0) == (s[0] == '/'),
        s[0] == '/' ==> split(s, '/').len() > 1,
    decreases s.len(),
{
    let rest = s.drop_last();
    lemma_split_is_not_empty(rest);
    if rest.len() > 0 {
        lemma_first_piece(rest);
    } else {
        assert(split(rest, '/') == seq![Seq::<char>::empty()]);
    }
}

proof fn lemma_components_of_same_start(a: Seq<Seq<char>>, b: Seq<Seq<char>>, n: nat)
    requires
        n <= a.len(),
        n <= b.len(),
        a.take(n as int) == b.take(n as int),
        n > 0 && a[0].len() == 0 ==> (a.len() > 1) == (b.len() > 1),
    ensures
        components_of(a, n) == components_of(b, n),
    decreases n,
{
    if n > 0 {
        assert(a.take(n as int)[n - 1] == b.take(n as int)[n - 1]);
        assert(a.take(n - 1) =~= a.take(n as int).take(n - 1));
        assert(b.take(n - 1) =~= b.take(n as int).take(n - 1));
        assert(a.take(n as int)[0] == b.take(n as int)[0]);
        lemma_components_of_same_start(a, b, (n - 1) as nat);
    }
}

proof fn lemma_components_go_on(pieces: Seq<Seq<char>>, m: nat, n: nat, good: int)
    requires
        m <= n <= pieces.len(),
        m == 0 ==> pieces.len() > 0 && pieces[0].len() > 0,
        m <= good < pieces.len(),
        pieces[good].len() > 0,
        pieces[good] != "."@,
    ensures
        components_of(pieces, m).len() <= components_of(pieces, n).len(),
        components_of(pieces, n).take(components_of(pieces, m).len() as int) == components_of(
            pieces,
            m,
        ),
        forall|i: int|
            components_of(pieces, m).len() <= i < components_of(pieces, n).len()
                ==> pieces.subrange(m as int, n as int).contains(
                #[trigger] components_of(pieces, n)[i],
            ),
        good < n ==> exists|i: int|
            components_of(pieces, m).len() <= i < components_of(pieces, n).len()
                && #[trigger] components_of(pieces, n)[i] == pieces[good],
    decreases n,
{
    let start = components_of(pieces, m);
    let all = components_of(pieces, n);
    if n == m {
        assert(all.take(start.len() as int) =~= start);
    } else {
        let before = components_of(pieces, (n - 1) as nat);
        let piece = pieces[n - 1];
        lemma_components_go_on(pieces, m, (n - 1) as nat, good);
        assert(all == before || all == before.push(piece));
        assert(all.take(start.len() as int) =~= before.take(start.len() as int));
        let from = pieces.subrange(m as int, n as int);
        assert forall|i: int| start.len() <= i < all.len() implies from.contains(
            #[trigger] all[i],
        ) by {
            if i < before.len() {
                assert(before[i] == all[i]);
                let part = pieces.subrange(m as int, n - 1);
                let j = choose|j: int| 0 <= j < part.len() && part[j] == before[i];
                assert(from[j] == all[i]);
            } else {
                assert(from[n - 1 - m] == piece);
            }
        }
        if good < n {
            if good == n - 1 {
                assert(all[all.len() - 1] == pieces[good]);
            } else {
                let i = choose|i: int|
                    start.len() <= i < before.len() && #[trigger] before[i] == pieces[good];
                assert(all[i] == pieces[good]);
            }
        }
    }
}

proof fn lemma_normal_of_same_start(a: Seq<Seq<char>>, b: Seq<Seq<char>>, n: nat)
    requires
        n <= a.len(),
        n <= b.len(),
        a.take(n as int) == b.take(n as int),
    ensures
        normal_of(a, n) == normal_of(b, n),
    decreases n,
{
    if n > 0 {
        assert(a.take(n as int)[n - 1] == b.take(n as int)[n - 1]);
        assert(a.take(n - 1) =~= a.take(n as int).take(n - 1));
        assert(b.take(n - 1) =~= b.take(n as int).take(n - 1));
        lemma_normal_of_same_start(a, b, (n - 1) as nat);
    }
}

proof fn lemma_normal_goes_on(parts: Seq<Seq<char>>, m: nat, n: nat)
    requires
        m <= n <= parts.len(),
        forall|i: int| m <= i < n ==> #[trigger] parts[i] != ".."@ && parts[i] != "/"@,
    ensures
        normal_of(parts, m).len() <= normal_of(parts, n).len(),
        normal_of(parts, n).take(normal_of(parts, m).len() as int) == normal_of(parts, m),
        forall|i: int|
            normal_of(parts, m).len() <= i < normal_of(parts, n).len() ==> #[trigger] normal_of(
                parts,
                n,
            )[i] != ".."@ && normal_of(parts, n)[i] != "/"@,
        (exists|i: int| m <= i < n && #[trigger] parts[i] != "."@) ==> normal_of(parts, m).len()
            < normal_of(parts, n).len(),
    decreases n,
{
    let start = normal_of(parts, m);
    let all = normal_of(parts, n);
    if n == m {
        assert(all.take(start.len() as int) =~= start);
    } else {
        let before = normal_of(parts, (n - 1) as nat);
        lemma_normal_goes_on(parts, m, (n - 1) as nat);
        assert(parts[n - 1] != ".."@);
        assert(all == before || all == before.push(parts[n - 1]));
        assert(all.take(start.len() as int) =~= before.take(start.len() as int));
        assert forall|i: int| start.len() <= i < all.len() implies #[trigger] all[i] != ".."@
            && all[i] != "/"@ by {
            if i < before.len() {
                assert(before[i] == all[i]);
            }
        }
    }
}

/// A relative path that nowhere goes up and names something stays below every root.
pub proof fn law_plain_paths_stay_below(root: Seq<char>, path: Seq<char>, good: int)
    requires
        path.len() > 0,
        path[0] != '/',
        !split(path, '/').contains(".."@),
        0 <= good < split(path, '/').len(),
        split(path, '/')[good].len() > 0,
        split(path, '/')[good] != "."@,
    ensures
        stays_below(root, joined(root, path)),
{
    reveal_strlit("/");
    reveal_strlit("..");
    reveal_strlit(".");
    let whole = joined(root, path);
    let names = split(path, '/');
    let pieces = split(whole, '/');
    lemma_first_piece(path);
    lemma_split_is_not_empty(path);
    let m: nat = if root.len() == 0 {
        assert(whole =~= path);
        assert(split(root, '/') == seq![Seq::<char>::empty()]);
        assert(components_of(split(root, '/'), 0) == Seq::<Seq<char>>::empty());
        0
    } else if root.last() == '/' {
        let q = root.drop_last();
        assert(whole =~= q.push('/') + path);
        assert(root =~= q.push('/') + Seq::<char>::empty());
        lemma_split_at_slash(q, path);
        lemma_split_at_slash(q, Seq::empty());
        lemma_split_is_not_empty(q);
        split(q, '/').len()
    } else {
        assert(whole =~= root.push('/') + path);
        lemma_split_at_slash(root, path);
        lemma_split_is_not_empty(root);
        split(root, '/').len()
    };
    let base = components_of(pieces, m);
    assert(base == components(root)) by {
        if root.len() > 0 {
            lemma_first_piece(root);
            let up = split(root, '/');
            assert(up.take(m as int) =~= pieces.take(m as int));
            assert(up.take(m as int)[0] == pieces.take(m as int)[0]);
            lemma_components_of_same_start(up, pieces, m);
            if root.last() == '/' {
                assert(up.len() == m + 1);
                assert(up[m as int].len() == 0);
            }
        } else {
            let up = split(root, '/');
            assert(up.len() == 1 && up[0].len() == 0);
            assert(components_of(up, 1) =~= components_of(up, 0));
        }
    }
    assert forall|i: int| m <= i < pieces.len() implies #[trigger] pieces[i] == names[i - m] by {}
    lemma_components_go_on(pieces, m, pieces.len(), m + good);
    let all = components(whole);
    assert forall|i: int| base.len() <= i < all.len() implies #[trigger] all[i] != ".."@ && all[i]
        != "/"@ by {
        let from = pieces.subrange(m as int, pieces.len() as int);
        let j = choose|j: int| 0 <= j < from.len() && from[j] == all[i];
        assert(pieces[m + j] == names[j]);
        assert(names[j] == all[i]);
        lemma_pieces_hold_no_slash(path, j);
        assert(names.contains(names[j]));
    }
    lemma_normal_goes_on(all, base.len(), all.len());
    assert(base.take(base.len() as int) =~= base);
    lemma_normal_of_same_start(all, base, base.len());
    let g = choose|i: int| base.len() <= i < all.len() && #[trigger] all[i] == pieces[m + good];
    assert(all[g] != "."@);
}

/// A name of which every piece names something, and that begins at no root.
pub open spec fn is_plain(rel: Seq<char>) -> bool {
    forall|i: int|
        0 <= i < split(rel, '/').len() ==> (#[trigger] split(rel, '/')[i]).len() > 0 && split(
            rel,
            '/',
        )[i] != "."@
}

proof fn lemma_push_all(path: Seq<char>, parts: Seq<Seq<char>>)
    requires
        path.len() > 0,
        path.last() != '/',
        parts.len() > 0,
        forall|i: int|
            0 <= i < parts.len() ==> (#[trigger] parts[i]).len() > 0 && !parts[i].contains('/'),
    ensures
        path_push_all(path, parts) == path.push('/') + join(parts, "/"@),
        path_push_all(path, parts).last() != '/',
    decreases parts.len(),
{
    reveal_strlit("/");
    assert("/"@ =~= seq!['/']);
    let last = parts.last();
    assert(parts[parts.len() - 1].len() > 0);
    assert(last.contains(last[last.len() - 1]));
    if parts.len() == 1 {
        assert(parts.drop_last() =~= Seq::<Seq<char>>::empty());
        assert(path_push_all(path, parts.drop_last()) == path);
        assert(path_push_all(path, parts) =~= path.push('/') + join(parts, "/"@));
    } else {
        let d = parts.drop_last();
        assert forall|i: int| 0 <= i < d.len() implies (#[trigger] d[i]).len() > 0
            && !d[i].contains('/') by {
            assert(d[i] == parts[i]);
        }
        lemma_push_all(path, d);
        assert(path_push_all(path, parts) =~= path.push('/') + join(parts, "/"@));
    }
}

proof fn lemma_components_append(pieces: Seq<Seq<char>>, m: nat, n: nat)
    requires
        0 < m <= n <= pieces.len(),
        forall|i: int| m <= i < n ==> (#[trigger] pieces[i]).len() > 0 && pieces[i] != "."@,
    ensures
        components_of(pieces, n) == components_of(pieces, m) + pieces.subrange(m as int, n as int),
    decreases n,
{
    if n == m {
        assert(components_of(pieces, m) + pieces.subrange(m as int, n as int) =~= components_of(
            pieces,
            m,
        ));
    } else {
        lemma_components_append(pieces, m, (n - 1) as nat);
        assert(pieces[n - 1].len() > 0);
        assert(pieces.subrange(m as int, n as int) =~= pieces.subrange(m as int, n - 1).push(
            pieces[n - 1],
        ));
        assert(components_of(pieces, n) =~= components_of(pieces, m) + pieces.subrange(
            m as int,
            n as int,
        ));
    }
}

/// A name leads to the path behind the folder's, and that path back to the name.
pub proof fn law_name_leads_there_and_back(root: Seq<char>, rel: Seq<char>)
    requires
        root.len() > 0,
        root.last() != '/',
        is_plain(rel),
    ensures
        absolute(root, rel) == root.push('/') + rel,
        joined(root, rel) == root.push('/') + rel,
        remainder(root, absolute(root, rel)) == Some(split(rel, '/')),
        relative(root, absolute(root, rel)) == Some(rel),
{
    reveal_strlit("/");
    assert("/"@ =~= seq!['/']);
    let parts = split(rel, '/');
    let path = root.push('/') + rel;
    law_join_undoes_split(rel, '/');
    assert(parts[0].len() > 0);
    if rel.len() > 0 {
        lemma_first_piece(rel);
    } else {
        assert(parts[0].len() == 0);
    }
    lemma_push_all(root, parts);
    assert(joined(root, rel) =~= path);
    lemma_split_at_slash(root, rel);
    lemma_split_is_not_empty(root);
    let up = split(root, '/');
    let all = split(path, '/');
    let m = up.len();
    assert(all == up + parts);
    assert forall|i: int| m <= i < all.len() implies (#[trigger] all[i]).len() > 0 && all[i]
        != "."@ by {
        assert(all[i] == parts[i - m]);
    }
    lemma_components_append(all, m, all.len());
    lemma_first_piece(root);
    assert(up.take(m as int) =~= all.take(m as int));
    lemma_components_of_same_start(up, all, m);
    assert(all.subrange(m as int, all.len() as int) =~= parts);
    assert(components(path) == components(root) + parts);
    assert((components(root) + parts).take(components(root).len() as int) =~= components(root));
    assert((components(root) + parts).skip(components(root).len() as int) =~= parts);
}

/// A name that goes up anywhere, begins at a root, or holds a backslash, might lead out
/// of the folder; no other does.
pub proof fn law_names_that_lead_out(rel: Seq<char>)
    ensures
        leads_out(rel) <==> (rel.len() > 0 && rel[0] == '/') || rel.contains('\\') || exists|i: int|
            0 <= i < rel.len() - 1 && #[trigger] rel[i] == '.' && rel[i + 1] == '.',
{
    reveal_strlit("..");
    reveal_strlit("/");
    reveal_strlit("\\");
    if occurs(rel, ".."@) {
        let at = choose|at: int| occurs_at(rel, ".."@, at);
        assert(rel.subrange(at, at + 2)[0] == '.');
        assert(rel.subrange(at, at + 2)[1] == '.');
        assert(rel[at] == '.' && rel[at + 1] == '.');
    }
    if exists|i: int| 0 <= i < rel.len() - 1 && #[trigger] rel[i] == '.' && rel[i + 1] == '.' {
        let i = choose|i: int|
            0 <= i < rel.len() - 1 && #[trigger] rel[i] == '.' && rel[i + 1] == '.';
        assert(rel.subrange(i, i + 2) =~= ".."@);
        assert(occurs_at(rel, ".."@, i));
    }
    if rel.len() > 0 {
        if rel[0] == '/' {
            assert(rel.subrange(0, 1) =~= "/"@);
        }
        if starts_with(rel, "/"@) {
            assert(rel.subrange(0, 1)[0] == '/');
        }
    }
    if occurs(rel, "\\"@) {
        let at = choose|at: int| occurs_at(rel, "\\"@, at);
        assert(rel.subrange(at, at + 1)[0] == '\\');
        assert(rel[at] == '\\');
    }
    if rel.contains('\\') {
        let i = choose|i: int| 0 <= i < rel.len() && rel[i] == '\\';
        assert(rel.subrange(i, i + 1) =~= "\\"@);
        assert(occurs_at(rel, "\\"@, i));
    }
}

proof fn lemma_dir_len(dir: Seq<char>, name: Seq<char>)
    requires
        !name.contains('/'),
    ensures
        dir_len(dir.push('/') + name) == dir.len() + 1,
    decreases name.len(),
{
    let p = dir.push('/') + name;
    if name.len() == 0 {
        assert(p =~= dir.push('/'));
    } else {
        assert(name.contains(name.last()));
        assert(p.drop_last() =~= dir.push('/') + name.drop_last());
        assert forall|c: char| name.drop_last().contains(c) implies name.contains(c) by {
            let i = choose|i: int| 0 <= i < name.drop_last().len() && name.drop_last()[i] == c;
            assert(name[i] == c);
        }
        lemma_dir_len(dir, name.drop_last());
    }
}

/// A path ends in a name: neither empty, nor a dot, nor two.
pub open spec fn names(name: Seq<char>) -> bool {
    name.len() > 0 && !name.contains('/') && name != "."@ && name != ".."@
}

proof fn lemma_named(dir: Seq<char>, name: Seq<char>)
    requires
        dir.len() > 0,
        trimmed(dir) == dir,
        names(name),
    ensures
        ({
            let p = dir.push('/') + name;
            &&& trimmed(p) == p
            &&& last_component(p) == name
            &&& has_file_name(p)
            &&& forall|other: Seq<char>| #[trigger]
                with_file_name(p, other) == dir.push('/') + other
        }),
{
    reveal_strlit("/");
    reveal_strlit(".");
    reveal_strlit("..");
    let p = dir.push('/') + name;
    assert(name.contains(name.last()));
    assert(p.last() == name.last());
    if name.last() == '.' && p[p.len() - 2] == '/' {
        if name.len() == 1 {
            assert(name =~= "."@);
        } else {
            assert(name[name.len() - 2] == '/');
        }
    }
    lemma_dir_len(dir, name);
    assert(p.skip((dir.len() + 1) as int) =~= name);
    assert(p.take((dir.len() + 1) as int) =~= dir.push('/'));
    assert(dir.push('/').drop_last() =~= dir);
    assert(trimmed(dir.push('/')) == dir);
    assert("/"@ =~= seq!['/']);
    assert forall|other: Seq<char>| #[trigger] with_file_name(p, other) == dir.push('/') + other by {
        assert(with_file_name(p, other) =~= dir.push('/') + other);
    }
}

/// The container of a file stands beside it under its name with `.vit` behind, and is
/// recognised by that; the file is not.
pub proof fn law_container_stands_beside_the_file(dir: Seq<char>, name: Seq<char>)
    requires
        dir.len() > 0,
        trimmed(dir) == dir,
        names(name),
    ensures
        vault_path(dir.push('/') + name) == dir.push('/') + name + ".vit"@,
        is_vault_path(vault_path(dir.push('/') + name)),
        last_component(vault_path(dir.push('/') + name)) == name + ".vit"@,
        is_vault_path(dir.push('/') + name) <==> name.len() > 4 && name.skip(name.len() - 4)
            == ".vit"@,
{
    reveal_strlit(".vit");
    reveal_strlit(".");
    reveal_strlit("..");
    let p = dir.push('/') + name;
    let more = name + ".vit"@;
    lemma_named(dir, name);
    assert(vault_path(p) == dir.push('/') + more);
    assert(dir.push('/') + more =~= dir.push('/') + name + ".vit"@);
    if more.contains('/') {
        let i = choose|i: int| 0 <= i < more.len() && more[i] == '/';
        if i < name.len() {
            assert(name[i] == '/');
        } else {
            assert(more[i] == ".vit"@[i - name.len()]);
        }
    }
    assert(more.len() > 4);
    lemma_named(dir, more);
    assert(more.subrange(more.len() - 4, more.len() as int) =~= ".vit"@);
    if name.len() >= 4 {
        assert(name.subrange(name.len() - 4, name.len() as int) =~= name.skip(name.len() - 4));
    }
}

/// The last component of a path is what stands behind its last slash, and it can be
/// replaced.
pub proof fn law_last_component_can_be_replaced(dir: Seq<char>, name: Seq<char>, other: Seq<char>)
    requires
        dir.len() > 0,
        trimmed(dir) == dir,
        names(name),
    ensures
        last_component(dir.push('/') + name) == name,
        has_file_name(dir.push('/') + name),
        with_file_name(dir.push('/') + name, other) == dir.push('/') + other,
{
    lemma_named(dir, name);
}

proof fn lemma_no_slash_no_split(s: Seq<char>)
    requires
        !s.contains('/'),
    ensures
        split(s, '/') == seq![s],
    decreases s.len(),
{
    if s.len() > 0 {
        let rest = s.drop_last();
        assert(s.contains(s.last()));
        assert forall|i: int| 0 <= i < rest.len() implies #[trigger] rest[i] != '/' by {
            assert(s.contains(s[i]));
        }
        lemma_no_slash_no_split(rest);
        assert(rest.push(s.last()) =~= s);
        assert(split(s, '/') =~= seq![s]);
    } else {
        assert(s =~= Seq::empty());
        assert(split(s, '/') =~= seq![s]);
    }
}

proof fn lemma_slash_comes_first(pieces: Seq<Seq<char>>, n: nat)
    requires
        n <= pieces.len(),
        forall|i: int| 0 <= i < pieces.len() ==> #[trigger] pieces[i] != "/"@,
    ensures
        forall|i: int|
            0 < i < components_of(pieces, n).len() ==> #[trigger] components_of(pieces, n)[i]
                != "/"@,
    decreases n,
{
    if n > 0 {
        lemma_slash_comes_first(pieces, (n - 1) as nat);
        let before = components_of(pieces, (n - 1) as nat);
        let now = components_of(pieces, n);
        if n == 1 {
            assert(before.len() == 0);
        }
        assert forall|i: int| 0 < i < now.len() implies #[trigger] now[i] != "/"@ by {
            if i < before.len() {
                assert(before[i] != "/"@);
            } else {
                assert(now[i] == pieces[n - 1]);
            }
        }
    }
}

proof fn lemma_normal_shape(parts: Seq<Seq<char>>, n: nat)
    requires
        n <= parts.len(),
        forall|i: int| 0 < i < parts.len() ==> #[trigger] parts[i] != "/"@,
    ensures
        forall|i: int, j: int|
            #![trigger normal_of(parts, n)[i], normal_of(parts, n)[j]]
            0 <= i < j < normal_of(parts, n).len() && normal_of(parts, n)[j] == ".."@
                ==> normal_of(parts, n)[i] == ".."@,
        forall|i: int|
            0 <= i < normal_of(parts, n).len() ==> #[trigger] normal_of(parts, n)[i] != "."@ && (i
                > 0 ==> normal_of(parts, n)[i] != "/"@),
    decreases n,
{
    if n > 0 {
        lemma_normal_shape(parts, (n - 1) as nat);
        let before = normal_of(parts, (n - 1) as nat);
        let now = normal_of(parts, n);
        let part = parts[n - 1];
        if n == 1 {
            assert(before.len() == 0);
        }
        assert forall|i: int, j: int|
            #![trigger now[i], now[j]]
            0 <= i < j < now.len() && now[j] == ".."@ implies now[i] == ".."@ by {
            if j == before.len() {
                assert(part == ".."@);
                assert(before.last() == ".."@);
                if i < before.len() - 1 {
                    assert(before[i] == ".."@);
                }
            } else {
                assert(before[j] == ".."@);
                assert(before[i] == ".."@);
            }
        }
    }
}

/// A path that stays below a folder is the folder's, in normal form, with names behind it
/// that lead further down; every such path stays below.
pub proof fn law_what_stays_below(root: Seq<char>, path: Seq<char>)
    ensures
        ({
            let r = normal(root);
            let p = normal(path);
            stays_below(root, path) <==> r.is_prefix_of(p) && r.len() < p.len() && forall|i: int|
                r.len() <= i < p.len() ==> (#[trigger] p[i]) != ".."@ && p[i] != "/"@ && p[i]
                    != "."@
        }),
{
    let pieces = split(path, '/');
    assert forall|i: int| 0 <= i < pieces.len() implies #[trigger] pieces[i] != "/"@ by {
        lemma_pieces_hold_no_slash(path, i);
    }
    lemma_slash_comes_first(pieces, pieces.len());
    lemma_normal_shape(components(path), components(path).len());
    let r = normal(root);
    let p = normal(path);
    if stays_below(root, path) {
        assert(p.subrange(0, r.len() as int) =~= p.take(r.len() as int));
        assert forall|i: int| r.len() <= i < p.len() implies (#[trigger] p[i]) != ".."@ && p[i]
            != "/"@ && p[i] != "."@ by {
            if i > r.len() && p[i] == ".."@ {
                assert(p[r.len() as int] == ".."@);
            }
        }
    }
    if r.is_prefix_of(p) && r.len() < p.len() {
        assert(p.take(r.len() as int) =~= r);
    }
}

/// Down into a folder and up again leads back; a path from the root stands for itself.
pub proof fn law_down_and_up_again(path: Seq<char>, name: Seq<char>, other: Seq<char>)
    requires
        path.len() > 0,
        path.last() != '/',
        names(name),
    ensures
        normal(joined(joined(path, name), ".."@)) == normal(path),
        normal(joined(path, name)) == normal(path).push(name),
        other.len() > 0 && other[0] == '/' ==> joined(path, other) == other,
{
    reveal_strlit("/");
    reveal_strlit("..");
    reveal_strlit(".");
    assert(name.contains(name[0]));
    assert(!".."@.contains('/'));
    assert("/"@.contains("/"@[0]));
    assert("."@.len() != ".."@.len());
    let down = path.push('/') + name;
    let rel = name.push('/') + ".."@;
    lemma_no_slash_no_split(name);
    lemma_no_slash_no_split(".."@);
    lemma_split_at_slash(name, ".."@);
    let c = components(path);
    law_name_leads_there_and_back(path, name);
    assert(components(down) =~= c + seq![name]) by {
        let p = components(down);
        assert(p =~= p.take(c.len() as int) + p.skip(c.len() as int));
    }
    law_name_leads_there_and_back(path, rel);
    let up = path.push('/') + rel;
    assert(components(up) =~= c + seq![name, ".."@]) by {
        let p = components(up);
        assert(p =~= p.take(c.len() as int) + p.skip(c.len() as int));
    }
    assert(joined(path, name) =~= down);
    assert(down.last() == name.last());
    assert(name.contains(name.last()));
    assert(joined(down, ".."@) =~= up);
    reveal_with_fuel(normal_of, 3);
    assert(components(down).take(c.len() as int) =~= c.take(c.len() as int));
    lemma_normal_of_same_start(components(down), c, c.len());
    assert(components(up).take(c.len() as int) =~= c.take(c.len() as int));
    lemma_normal_of_same_start(components(up), c, c.len());
    assert(components(up)[c.len() as int] == name);
    assert(components(up)[c.len() as int + 1] == ".."@);
    assert(normal(path).push(name).drop_last() =~= normal(path));
}

/// A folder has no name within itself, and no path an empty one.
pub proof fn law_no_name_is_empty(root: Seq<char>, path: Seq<char>)
    ensures
        relative(root, root) is None,
        relative(root, path) matches Some(rel) ==> rel.len() > 0,
{
    let c = components(root);
    assert(c.take(c.len() as int) =~= c);
    assert(c.skip(c.len() as int) =~= Seq::empty());
}

/// A plain name in a folder names a file there.
pub proof fn law_plain_name_names_a_file(root: Seq<char>, name: Seq<char>)
    requires
        root.len() > 0,
        trimmed(root) == root,
        root.last() != '/',
        names(name),
    ensures
        has_file_name(absolute(root, name)),
        last_component(absolute(root, name)) == name,
{
    lemma_no_slash_no_split(name);
    law_name_leads_there_and_back(root, name);
    lemma_named(root, name);
}

/// A slash at the end of a path, or a dot behind one, does not count.
pub proof fn law_slashes_at_the_end_do_not_count(path: Seq<char>, name: Seq<char>)
    ensures
        last_component(path.push('/')) == last_component(path),
        has_file_name(path.push('/')) == has_file_name(path),
        with_file_name(path.push('/'), name) == with_file_name(path, name),
        vault_path(path.push('/')) == vault_path(path),
        last_component(path.push('/').push('.')) == last_component(path),
        with_file_name(path.push('/').push('.'), name) == with_file_name(path, name),
{
    let slashed = path.push('/');
    let dotted = slashed.push('.');
    assert(slashed.drop_last() =~= path);
    assert(trimmed(slashed) == trimmed(path));
    assert(dotted.drop_last() =~= slashed);
    assert(trimmed(dotted) == trimmed(slashed));
}

} // verus!
