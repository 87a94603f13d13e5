//! The page of the user interface, and its delivery.
use crate::text::{chars_at, concat4, decimal, decimal_text, same_text, starts_with, to_chars};
use vstd::prelude::*;
use vstd::utf8::encode_utf8;

verus! {

/// The page of a theme: one theme has a page of its own.
pub open spec fn themed(theme: Seq<char>, gothic: Seq<char>, standard: Seq<char>) -> Seq<char> {
    if theme == "gothic"@ {
        gothic
    } else {
        standard
    }
}

/// Chooses the page of a theme.
pub fn get_html<'a>(theme: &str, gothic: &'a str, standard: &'a str) -> (r: &'a str)
    ensures
        r@ == themed(theme@, gothic@, standard@),
{
    if same_text(theme, "gothic") {
        gothic
    } else {
        standard
    }
}

/// A text with every occurrence of `from` replaced, from the left.
pub open spec fn replaced(s: Seq<char>, from: Seq<char>, to: Seq<char>) -> Seq<char>
    decreases s.len(),
{
    if s.len() == 0 || from.len() == 0 {
        s
    } else if starts_with(s, from) {
        to + replaced(s.skip(from.len() as int), from, to)
    } else {
        seq![s[0]] + replaced(s.drop_first(), from, to)
    }
}

/// A text with every occurrence of `from` replaced, from the left.
pub fn replace_text(s: &str, from: &str, to: &str) -> (r: String)
    requires
        from@.len() > 0,
    ensures
        r@ == replaced(s@, from@, to@),
{
    let sc = to_chars(s);
    let fc = to_chars(from);
    let mut out = String::new();
    let mut i: usize = 0;
    assert(sc@.skip(0) =~= s@);
    assert(out@ + replaced(sc@.skip(0), from@, to@) =~= replaced(s@, from@, to@));
    while i < sc.len()
        invariant
            sc@ == s@,
            fc@ == from@,
            from@.len() > 0,
            i <= sc@.len(),
            out@ + replaced(sc@.skip(i as int), from@, to@) == replaced(s@, from@, to@),
        decreases sc.len() - i,
    {
        let ghost rest = sc@.skip(i as int);
        let ghost before = out@;
        let here = chars_at(&sc, &fc, i);
        proof {
            if here {
                assert(rest.subrange(0, from@.len() as int) =~= sc@.subrange(
                    i as int,
                    i + from@.len(),
                ));
            } else if i + from@.len() <= sc@.len() {
                assert(rest.subrange(0, from@.len() as int) =~= sc@.subrange(
                    i as int,
                    i + from@.len(),
                ));
            }
            assert(here == starts_with(rest, from@));
        }
        if here {
            out.append(to);
            proof {
                assert(rest.skip(from@.len() as int) =~= sc@.skip(i + from@.len()));
                let tail = replaced(rest.skip(from@.len() as int), from@, to@);
                assert(before + (to@ + tail) =~= (before + to@) + tail);
            }
            i = i + fc.len();
        } else {
            out.push(sc[i]);
            proof {
                assert(rest.drop_first() =~= sc@.skip(i + 1));
                let tail = replaced(rest.drop_first(), from@, to@);
                assert(before + (seq![rest[0]] + tail) =~= before.push(rest[0]) + tail);
            }
            i = i + 1;
        }
    }
    assert(sc@.skip(i as int) =~= Seq::empty());
    assert(out@ =~= out@ + Seq::<char>::empty());
    out
}

/// The page with the port of the web socket filled in.
pub open spec fn filled_page(page: Seq<char>, ws_port: u16) -> Seq<char> {
    replaced(page, "__WS_PORT__"@, decimal(ws_port as nat))
}

/// The answer that delivers a page.
pub open spec fn page_response(html: Seq<char>) -> Seq<char> {
    "HTTP/1.1 200 OK\r\nContent-Type: text/html; charset=utf-8\r\nContent-Length: "@ + decimal(
        encode_utf8(html).len(),
    ) + "\r\nCache-Control: no-cache\r\nConnection: close\r\n\r\n"@ + html
}

/// Makes the answer that delivers the page of a theme.
pub fn http_response(theme: &str, gothic: &str, standard: &str, ws_port: u16) -> (r: String)
    ensures
        r@ == page_response(filled_page(themed(theme@, gothic@, standard@), ws_port)),
{
    let page = get_html(theme, gothic, standard);
    proof {
        reveal_strlit("__WS_PORT__");
    }
    let html = replace_text(page, "__WS_PORT__", decimal_text(ws_port as u64).as_str());
    let len: usize = html.as_str().as_bytes().len();
    concat4(
        "HTTP/1.1 200 OK\r\nContent-Type: text/html; charset=utf-8\r\nContent-Length: ",
        decimal_text(len as u64).as_str(),
        "\r\nCache-Control: no-cache\r\nConnection: close\r\n\r\n",
        html.as_str(),
    )
}

proof fn lemma_skip_plain(a: Seq<char>, s: Seq<char>, from: Seq<char>, to: Seq<char>)
    requires
        from.len() > 0,
        !a.contains(from[0]),
    ensures
        replaced(a + s, from, to) == a + replaced(s, from, to),
    decreases a.len(),
{
    if a.len() == 0 {
        assert(a + s =~= s);
        assert(a + replaced(s, from, to) =~= replaced(s, from, to));
    } else {
        let all = a + s;
        let rest = a.drop_first();
        assert(a.contains(a[0]));
        if starts_with(all, from) {
            assert(all.subrange(0, from.len() as int)[0] == from[0]);
        }
        assert(all.drop_first() =~= rest + s);
        assert forall|c: char| rest.contains(c) implies a.contains(c) by {
            let i = choose|i: int| 0 <= i < rest.len() && rest[i] == c;
            assert(a[i + 1] == c);
        }
        lemma_skip_plain(rest, s, from, to);
        assert(seq![a[0]] + (rest + replaced(s, from, to)) =~= a + replaced(s, from, to));
    }
}

/// What stands before and behind what is replaced stays as it is, and every occurrence is
/// replaced.
pub proof fn law_only_what_is_named_is_replaced(
    a: Seq<char>,
    b: Seq<char>,
    from: Seq<char>,
    to: Seq<char>,
)
    requires
        from.len() > 0,
        !a.contains(from[0]),
    ensures
        replaced(a, from, to) == a,
        replaced(a + from + b, from, to) == a + to + replaced(b, from, to),
{
    lemma_skip_plain(a, Seq::empty(), from, to);
    assert(a + Seq::<char>::empty() =~= a);
    assert(a + replaced(Seq::empty(), from, to) =~= a);
    let s = from + b;
    lemma_skip_plain(a, s, from, to);
    assert(a + s =~= a + from + b);
    assert(s.subrange(0, from.len() as int) =~= from);
    assert(s.skip(from.len() as int) =~= b);
    assert(a + (to + replaced(b, from, to)) =~= a + to + replaced(b, from, to));
}

/// The page is that of the theme, with the port of the web socket in place of its mark,
/// and is delivered behind a head that tells its length in bytes.
pub proof fn law_page_is_delivered(
    theme: Seq<char>,
    gothic: Seq<char>,
    standard: Seq<char>,
    a: Seq<char>,
    port: u16,
)
    requires
        !a.contains('_'),
    ensures
        themed("gothic"@, gothic, standard) == gothic,
        theme != "gothic"@ ==> themed(theme, gothic, standard) == standard,
        filled_page(a + "__WS_PORT__"@ + a, port) == a + decimal(port as nat) + a,
        page_response(a) ==
            "HTTP/1.1 200 OK\r\nContent-Type: text/html; charset=utf-8\r\nContent-Length: "@
            + decimal(encode_utf8(a).len())
            + "\r\nCache-Control: no-cache\r\nConnection: close\r\n\r\n"@ + a,
{
    reveal_strlit("__WS_PORT__");
    law_only_what_is_named_is_replaced(a, a, "__WS_PORT__"@, decimal(port as nat));
}

} // verus!
