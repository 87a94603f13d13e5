//! The commands of the terminal.
use crate::text::{is_white, same_text, texts, to_chars, white};
use vstd::prelude::*;

verus! {

/// What a line asks for.
#[allow(inconsistent_fields)]
#[derive(Debug)]
pub enum CliCommand {
    /// A file to send is missing.
    SendUsage,
    /// Send a file to all peers.
    Send { path: String },
    /// List the peers.
    Peers,
    Quit,
    Help,
    Unknown,
}

/// What a `CliCommand` says.
#[allow(inconsistent_fields)]
#[verifier::ext_equal]
pub ghost enum CliCommandView {
    SendUsage,
    Send { path: Seq<char> },
    Peers,
    Quit,
    Help,
    Unknown,
}

impl View for CliCommand {
    type V = CliCommandView;

    open spec fn view(&self) -> CliCommandView {
        match *self {
            CliCommand::SendUsage => CliCommandView::SendUsage,
            CliCommand::Send { path } => CliCommandView::Send {
                path: path@,
            },
            CliCommand::Peers => CliCommandView::Peers,
            CliCommand::Quit => CliCommandView::Quit,
            CliCommand::Help => CliCommandView::Help,
            CliCommand::Unknown => CliCommandView::Unknown,
        }
    }
}

/// Whether a file is sent.
#[derive(Debug, Clone, Copy, PartialEq, Eq, Structural)]
pub enum SendDecision {
    FileNotFound,
    NoPeers,
    Go,
}

/// The words of the first `n` characters, and the word that is being read.
pub open spec fn words_read(s: Seq<char>, n: nat) -> (Seq<Seq<char>>, Seq<char>)
    decreases n,
{
    if n == 0 {
        (Seq::empty(), Seq::empty())
    } else {
        let (words, word) = words_read(s, (n - 1) as nat);
        if is_white(s[n - 1]) {
            if word.len() > 0 {
                (words.push(word), Seq::empty())
            } else {
                (words, Seq::empty())
            }
        } else {
            (words, word.push(s[n - 1]))
        }
    }
}

/// The words of a line.
pub open spec fn words(s: Seq<char>) -> Seq<Seq<char>> {
    let (words, word) = words_read(s, s.len());
    if word.len() > 0 {
        words.push(word)
    } else {
        words
    }
}

/// The words of a line.
pub fn split_words(s: &str) -> (r: Vec<String>)
    ensures
        texts(r@) == words(s@),
{
    let chars = to_chars(s);
    let mut out: Vec<String> = Vec::new();
    let mut word = String::new();
    let mut i: usize = 0;
    assert(texts(out@) =~= Seq::empty());
    while i < chars.len()
        invariant
            chars@ == s@,
            i <= chars@.len(),
            texts(out@) == words_read(s@, i as nat).0,
            word@ == words_read(s@, i as nat).1,
        decreases chars.len() - i,
    {
        let c = chars[i];
        if white(c) {
            if !word.as_str().is_empty() {
                let ghost before = texts(out@);
                let ghost w = word@;
                out.push(word);
                assert(texts(out@) =~= before.push(w));
            }
            word = String::new();
        } else {
            word.push(c);
        }
        i = i + 1;
    }
    if !word.as_str().is_empty() {
        let ghost before = texts(out@);
        let ghost w = word@;
        out.push(word);
        assert(texts(out@) =~= before.push(w));
    }
    out
}

/// What the words of a line ask for.
pub open spec fn command_of(words: Seq<Seq<char>>) -> CliCommandView {
    if words.len() == 0 {
        CliCommandView::Unknown
    } else if words[0] == "send"@ {
        if words.len() < 2 {
            CliCommandView::SendUsage
        } else {
            CliCommandView::Send { path: words[1] }
        }
    } else if words[0] == "peers"@ {
        CliCommandView::Peers
    } else if words[0] == "quit"@ {
        CliCommandView::Quit
    } else if words[0] == "help"@ {
        CliCommandView::Help
    } else {
        CliCommandView::Unknown
    }
}

/// Reads a line.
pub fn parse_command(line: &str) -> (r: CliCommand)
    ensures
        r@ == command_of(words(line@)),
{
    let parts = split_words(line);
    if parts.len() == 0 {
        return CliCommand::Unknown;
    }
    assert(texts(parts@)[0] == parts@[0]@);
    let first = parts[0].as_str();
    if same_text(first, "send") {
        if parts.len() < 2 {
            CliCommand::SendUsage
        } else {
            assert(texts(parts@)[1] == parts@[1]@);
            CliCommand::Send { path: parts[1].clone() }
        }
    } else if same_text(first, "peers") {
        CliCommand::Peers
    } else if same_text(first, "quit") {
        CliCommand::Quit
    } else if same_text(first, "help") {
        CliCommand::Help
    } else {
        CliCommand::Unknown
    }
}

/// Whether a file is sent: it must be there, and somebody to send it to.
pub fn decide_send(file_exists: bool, peers: usize) -> (r: SendDecision)
    ensures
        r == if !file_exists {
            SendDecision::FileNotFound
        } else if peers == 0 {
            SendDecision::NoPeers
        } else {
            SendDecision::Go
        },
{
    if !file_exists {
        SendDecision::FileNotFound
    } else if peers == 0 {
        SendDecision::NoPeers
    } else {
        SendDecision::Go
    }
}

proof fn lemma_words_read(s: Seq<char>, n: nat)
    requires
        n <= s.len(),
    ensures
        ({
            let (words, word) = words_read(s, n);
            &&& forall|i: int| 0 <= i < words.len() ==> (#[trigger] words[i]).len() > 0
            &&& forall|i: int, k: int|
                0 <= i < words.len() && 0 <= k < words[i].len() ==> !is_white(
                    #[trigger] words[i][k],
                )
            &&& forall|k: int| 0 <= k < word.len() ==> !is_white(#[trigger] word[k])
            &&& word.len() <= n
            &&& word == s.subrange(n - word.len(), n as int)
            &&& word.len() < n ==> is_white(s[n - word.len() - 1])
        }),
    decreases n,
{
    if n > 0 {
        lemma_words_read(s, (n - 1) as nat);
        let (before, word0) = words_read(s, (n - 1) as nat);
        let (words, word) = words_read(s, n);
        if !is_white(s[n - 1]) {
            assert(word =~= s.subrange(n - word.len(), n as int));
        } else {
            assert(word =~= s.subrange(n as int, n as int));
            assert forall|i: int, k: int|
                0 <= i < words.len() && 0 <= k < words[i].len() implies !is_white(
                #[trigger] words[i][k],
            ) by {
                if i < before.len() {
                    assert(words[i] == before[i]);
                    assert(!is_white(before[i][k]));
                }
            }
        }
    } else {
        assert(words_read(s, 0).1 =~= s.subrange(0, 0));
    }
}

/// Words are never empty and hold no white space.
pub proof fn law_words_hold_no_white_space(s: Seq<char>, i: int, k: int)
    requires
        0 <= i < words(s).len(),
        0 <= k < words(s)[i].len(),
    ensures
        words(s)[i].len() > 0,
        !is_white(words(s)[i][k]),
{
    lemma_words_read(s, s.len());
    let (all, word) = words_read(s, s.len());
    if i < all.len() {
        assert(words(s)[i] == all[i]);
        assert(!is_white(all[i][k]));
    }
}

proof fn lemma_plain_read(s: Seq<char>, from: nat, n: nat)
    requires
        from <= n <= s.len(),
        words_read(s, from).1.len() == 0,
        forall|k: int| from <= k < n ==> !is_white(#[trigger] s[k]),
    ensures
        words_read(s, n) == (words_read(s, from).0, s.subrange(from as int, n as int)),
    decreases n,
{
    if n > from {
        lemma_plain_read(s, from, (n - 1) as nat);
        assert(!is_white(s[n - 1]));
        assert(s.subrange(from as int, n as int) =~= s.subrange(from as int, n - 1).push(
            s[n - 1],
        ));
    } else {
        assert(words_read(s, n).1 =~= s.subrange(from as int, n as int));
    }
}

/// A line of two words with a space between is read as those two.
pub proof fn law_words_are_told_apart(a: Seq<char>, b: Seq<char>)
    requires
        a.len() > 0,
        b.len() > 0,
        forall|k: int| 0 <= k < a.len() ==> !is_white(#[trigger] a[k]),
        forall|k: int| 0 <= k < b.len() ==> !is_white(#[trigger] b[k]),
    ensures
        words(a) == seq![a],
        words(a.push(' ') + b) == seq![a, b],
{
    assert(words_read(a, 0).1.len() == 0);
    lemma_plain_read(a, 0, a.len());
    assert(a.subrange(0, a.len() as int) =~= a);
    assert(words(a) =~= seq![a]);
    let s = a.push(' ') + b;
    let n = a.len();
    assert(words_read(s, 0).1.len() == 0);
    assert forall|k: int| 0 <= k < n implies !is_white(#[trigger] s[k]) by {
        assert(s[k] == a[k]);
    }
    lemma_plain_read(s, 0, n);
    assert(s.subrange(0, n as int) =~= a);
    assert(is_white(s[n as int]));
    assert(words_read(s, n + 1) == (words_read(s, n).0.push(a), Seq::<char>::empty()));
    assert forall|k: int| n + 1 <= k < s.len() implies !is_white(#[trigger] s[k]) by {
        assert(s[k] == b[k - n - 1]);
    }
    lemma_plain_read(s, n + 1, s.len());
    assert(s.subrange((n + 1) as int, s.len() as int) =~= b);
    assert(words(s) =~= seq![a, b]);
}

/// What each word at the beginning of a line asks for.
pub proof fn law_commands_of_the_terminal(words: Seq<Seq<char>>)
    ensures
        words.len() == 0 ==> command_of(words) is Unknown,
        words.len() == 1 && words[0] == "send"@ ==> command_of(words) is SendUsage,
        words.len() > 1 && words[0] == "send"@ ==> command_of(words) == (CliCommandView::Send {
            path: words[1],
        }),
        words.len() > 0 && words[0] == "peers"@ ==> command_of(words) is Peers,
        words.len() > 0 && words[0] == "quit"@ ==> command_of(words) is Quit,
        words.len() > 0 && words[0] == "help"@ ==> command_of(words) is Help,
        words.len() > 0 && words[0] != "send"@ && words[0] != "peers"@ && words[0] != "quit"@
            && words[0] != "help"@ ==> command_of(words) is Unknown,
{
    reveal_strlit("send");
    reveal_strlit("peers");
    reveal_strlit("quit");
    reveal_strlit("help");
    assert("send"@[0] == 's' && "peers"@[0] == 'p' && "quit"@[0] == 'q' && "help"@[0] == 'h');
}

} // verus!
