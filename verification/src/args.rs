//! The command line.
use crate::text::{decimal, digit_char, opt_text, owned, same_text, texts, to_chars};
use vstd::prelude::*;

verus! {

/// The texts of an optional pair.
pub open spec fn opt_pair(p: Option<(String, String)>) -> Option<(Seq<char>, Seq<char>)> {
    match p {
        Some((a, b)) => Some((a@, b@)),
        None => None,
    }
}

/// What the command line asks for.
#[derive(Debug)]
pub struct Options {
    pub http_port: u16,
    pub ws_port: u16,
    pub theme: String,
    /// Where the transport key is, if not in the default place.
    pub key_path: Option<String>,
    /// Where the vault key is, if not in the default place.
    pub vault_key_path: Option<String>,
    /// Where a new key is to be written.
    pub generate_key_path: Option<String>,
    pub vault_mode: bool,
    pub encrypted_protocol: bool,
    /// A folder to import, and the vault to import it to.
    pub import_args: Option<(String, String)>,
    /// A container to export, and where to.
    pub export_args: Option<(String, String)>,
}

/// What an `Options` holds.
#[verifier::ext_equal]
pub ghost struct OptionsView {
    pub http_port: u16,
    pub ws_port: u16,
    pub theme: Seq<char>,
    pub key_path: Option<Seq<char>>,
    pub vault_key_path: Option<Seq<char>>,
    pub generate_key_path: Option<Seq<char>>,
    pub vault_mode: bool,
    pub encrypted_protocol: bool,
    pub import_args: Option<(Seq<char>, Seq<char>)>,
    pub export_args: Option<(Seq<char>, Seq<char>)>,
}

impl View for Options {
    type V = OptionsView;

    open spec fn view(&self) -> OptionsView {
        OptionsView {
            http_port: self.http_port,
            ws_port: self.ws_port,
            theme: self.theme@,
            key_path: opt_text(self.key_path),
            vault_key_path: opt_text(self.vault_key_path),
            generate_key_path: opt_text(self.generate_key_path),
            vault_mode: self.vault_mode,
            encrypted_protocol: self.encrypted_protocol,
            import_args: opt_pair(self.import_args),
            export_args: opt_pair(self.export_args),
        }
    }
}

/// What is to be done for a command line.
#[allow(inconsistent_fields)]
#[derive(Debug)]
pub enum Invocation {
    Run { options: Options },
    Help,
    /// The arguments of an import are missing.
    ImportUsage,
    /// The arguments of an export are missing.
    ExportUsage,
}

/// What an `Invocation` says.
#[allow(inconsistent_fields)]
#[verifier::ext_equal]
pub ghost enum InvocationView {
    Run { options: OptionsView },
    Help,
    ImportUsage,
    ExportUsage,
}

impl View for Invocation {
    type V = InvocationView;

    open spec fn view(&self) -> InvocationView {
        match *self {
            Invocation::Run { options } => InvocationView::Run {
                options: options@,
            },
            Invocation::Help => InvocationView::Help,
            Invocation::ImportUsage => InvocationView::ImportUsage,
            Invocation::ExportUsage => InvocationView::ExportUsage,
        }
    }
}

/// What holds without arguments.
pub open spec fn default_options() -> OptionsView {
    OptionsView {
        http_port: 9000,
        ws_port: 9001,
        theme: ""@,
        key_path: None,
        vault_key_path: None,
        generate_key_path: None,
        vault_mode: true,
        encrypted_protocol: true,
        import_args: None,
        export_args: None,
    }
}

/// The number that decimal digits denote, if nothing else stands there.
pub open spec fn digits_value(s: Seq<char>) -> Option<nat>
    decreases s.len(),
{
    if s.len() == 0 {
        Some(0)
    } else {
        match digits_value(s.drop_last()) {
            None => None,
            Some(n) => if '0' <= s.last() <= '9' {
                Some((n * 10 + (s.last() as int - '0' as int)) as nat)
            } else {
                None
            },
        }
    }
}

/// The port that a text denotes: at least one digit, perhaps behind a plus sign,
/// and no more than a port can be.
pub open spec fn port_of(s: Seq<char>) -> Option<u16> {
    let digits = if s.len() > 0 && s[0] == '+' {
        s.drop_first()
    } else {
        s
    };
    if digits.len() == 0 {
        None
    } else {
        match digits_value(digits) {
            Some(n) => if n <= u16::MAX {
                Some(n as u16)
            } else {
                None
            },
            None => None,
        }
    }
}

/// The port that a text denotes, or a default.
pub open spec fn port_or(s: Seq<char>, default: u16) -> u16 {
    match port_of(s) {
        Some(p) => p,
        None => default,
    }
}

proof fn lemma_bad_prefix(s: Seq<char>, i: int)
    requires
        0 <= i <= s.len(),
        digits_value(s.take(i)) is None,
    ensures
        digits_value(s) is None,
    decreases s.len(),
{
    if i == s.len() {
        assert(s.take(i) =~= s);
    } else {
        assert(s.drop_last().take(i) =~= s.take(i));
        lemma_bad_prefix(s.drop_last(), i);
    }
}

proof fn lemma_large_prefix(s: Seq<char>, i: int, bound: nat)
    requires
        0 <= i <= s.len(),
        digits_value(s.take(i)) matches Some(n) && n > bound,
    ensures
        digits_value(s) matches Some(n) ==> n > bound,
    decreases s.len(),
{
    if i == s.len() {
        assert(s.take(i) =~= s);
    } else {
        assert(s.drop_last().take(i) =~= s.take(i));
        lemma_large_prefix(s.drop_last(), i, bound);
    }
}

/// The port that a text denotes, or a default.
pub fn parse_port(s: &str, default: u16) -> (r: u16)
    ensures
        r == port_or(s@, default),
{
    let chars = to_chars(s);
    let from: usize = if chars.len() > 0 && chars[0] == '+' {
        1
    } else {
        0
    };
    let ghost digits = if s@.len() > 0 && s@[0] == '+' {
        s@.drop_first()
    } else {
        s@
    };
    assert(chars@.skip(from as int) =~= digits);
    if from == chars.len() {
        return default;
    }
    let mut value: u32 = 0;
    let mut i: usize = from;
    assert(digits.take(0) =~= Seq::empty());
    while i < chars.len()
        invariant
            from <= i <= chars@.len(),
            digits == chars@.skip(from as int),
            digits == (if s@.len() > 0 && s@[0] == '+' {
                s@.drop_first()
            } else {
                s@
            }),
            digits.len() > 0,
            value <= u16::MAX,
            digits_value(digits.take(i - from)) == Some(value as nat),
        decreases chars.len() - i,
    {
        let c = chars[i];
        proof {
            let next = digits.take(i - from + 1);
            assert(next.drop_last() =~= digits.take(i - from));
            assert(next.last() == c);
        }
        if !('0' <= c && c <= '9') {
            proof {
                lemma_bad_prefix(digits, i - from + 1);
            }
            return default;
        }
        value = value * 10 + (c as u32 - '0' as u32);
        i = i + 1;
        if value > u16::MAX as u32 {
            proof {
                lemma_large_prefix(digits, i - from, u16::MAX as nat);
            }
            return default;
        }
    }
    assert(digits.take(i - from) =~= digits);
    value as u16
}

/// The argument at a place, if there is one.
pub open spec fn arg_at(args: Seq<Seq<char>>, i: int) -> Option<Seq<char>> {
    if 0 <= i < args.len() {
        Some(args[i])
    } else {
        None
    }
}

/// What an option with a value does: nothing if the value is missing.
pub open spec fn with_value(name: Seq<char>, value: Option<Seq<char>>, o: OptionsView) -> OptionsView {
    match value {
        None => o,
        Some(v) => if name == "--http-port"@ {
            OptionsView { http_port: port_or(v, 9000), ..o }
        } else if name == "--ws-port"@ {
            OptionsView { ws_port: port_or(v, 9001), ..o }
        } else if name == "--theme"@ {
            OptionsView { theme: v, ..o }
        } else if name == "--key-path"@ {
            OptionsView { key_path: Some(v), ..o }
        } else if name == "--generate-key"@ {
            OptionsView { generate_key_path: Some(v), ..o }
        } else {
            OptionsView { vault_key_path: Some(v), ..o }
        },
    }
}

/// An option takes a value.
pub open spec fn takes_value(name: Seq<char>) -> bool {
    name == "--http-port"@ || name == "--ws-port"@ || name == "--theme"@ || name == "--key-path"@
        || name == "--generate-key"@ || name == "--vault-key"@
}

/// What a switch does; anything unknown is ignored.
pub open spec fn with_switch(name: Seq<char>, o: OptionsView) -> OptionsView {
    if name == "--vault"@ {
        OptionsView { vault_mode: true, ..o }
    } else if name == "--no-vault"@ {
        OptionsView { vault_mode: false, ..o }
    } else if name == "--no-encrypted-protocol"@ {
        OptionsView { encrypted_protocol: false, ..o }
    } else {
        o
    }
}

/// What the arguments from place `i` on ask for, given what came before.
pub open spec fn invocation_from(args: Seq<Seq<char>>, i: int, o: OptionsView) -> InvocationView
    decreases
            (if i < args.len() {
                args.len() - i
            } else {
                0
            }),
{
    if i < 0 || i >= args.len() {
        InvocationView::Run { options: o }
    } else {
        let name = args[i];
        if takes_value(name) {
            invocation_from(args, i + 2, with_value(name, arg_at(args, i + 1), o))
        } else if name == "import"@ {
            if i + 2 < args.len() {
                invocation_from(
                    args,
                    i + 3,
                    OptionsView { import_args: Some((args[i + 1], args[i + 2])), ..o },
                )
            } else {
                InvocationView::ImportUsage
            }
        } else if name == "export"@ {
            if i + 2 < args.len() {
                invocation_from(
                    args,
                    i + 3,
                    OptionsView { export_args: Some((args[i + 1], args[i + 2])), ..o },
                )
            } else {
                InvocationView::ExportUsage
            }
        } else if name == "--help"@ || name == "-h"@ {
            InvocationView::Help
        } else {
            invocation_from(args, i + 1, with_switch(name, o))
        }
    }
}

fn is(a: &String, b: &str) -> (r: bool)
    ensures
        r == (a@ == b@),
{
    same_text(a.as_str(), b)
}

fn apply_value(name: &String, value: &String, o: &mut Options)
    requires
        takes_value(name@),
    ensures
        final(o)@ == with_value(name@, Some(value@), old(o)@),
{
    if is(name, "--http-port") {
        o.http_port = parse_port(value.as_str(), 9000);
    } else if is(name, "--ws-port") {
        o.ws_port = parse_port(value.as_str(), 9001);
    } else if is(name, "--theme") {
        o.theme = value.clone();
    } else if is(name, "--key-path") {
        o.key_path = Some(value.clone());
    } else if is(name, "--generate-key") {
        o.generate_key_path = Some(value.clone());
    } else {
        o.vault_key_path = Some(value.clone());
    }
}

fn needs_value(name: &String) -> (r: bool)
    ensures
        r == takes_value(name@),
{
    is(name, "--http-port") || is(name, "--ws-port") || is(name, "--theme") || is(
        name,
        "--key-path",
    ) || is(name, "--generate-key") || is(name, "--vault-key")
}

/// Reads the command line. The first argument is the program's name.
pub fn parse_args(args: &Vec<String>) -> (r: Invocation)
    ensures
        r@ == invocation_from(texts(args@), 1, default_options()),
{
    let ghost all = texts(args@);
    let n: usize = args.len();
    let mut o = Options {
        http_port: 9000,
        ws_port: 9001,
        theme: owned(""),
        key_path: None,
        vault_key_path: None,
        generate_key_path: None,
        vault_mode: true,
        encrypted_protocol: true,
        import_args: None,
        export_args: None,
    };
    let mut i: usize = 1;
    while i < n
        invariant
            all == texts(args@),
            n == args@.len(),
            1 <= i,
            invocation_from(all, i as int, o@) == invocation_from(all, 1, default_options()),
        decreases n - i,
    {
        assert(all[i as int] == args@[i as int]@);
        if needs_value(&args[i]) {
            if n - i > 1 {
                assert(all[i + 1] == args@[i + 1]@);
                apply_value(&args[i], &args[i + 1], &mut o);
                i = i + 2;
            } else {
                assert(invocation_from(all, i + 2, o@) == InvocationView::Run { options: o@ });
                return Invocation::Run { options: o };
            }
        } else if is(&args[i], "import") {
            if n - i > 2 {
                assert(all[i + 1] == args@[i + 1]@);
                assert(all[i + 2] == args@[i + 2]@);
                o.import_args = Some((args[i + 1].clone(), args[i + 2].clone()));
                if n - i == 3 {
                    assert(invocation_from(all, i + 3, o@) == InvocationView::Run { options: o@ });
                    return Invocation::Run { options: o };
                }
                i = i + 3;
            } else {
                return Invocation::ImportUsage;
            }
        } else if is(&args[i], "export") {
            if n - i > 2 {
                assert(all[i + 1] == args@[i + 1]@);
                assert(all[i + 2] == args@[i + 2]@);
                o.export_args = Some((args[i + 1].clone(), args[i + 2].clone()));
                if n - i == 3 {
                    assert(invocation_from(all, i + 3, o@) == InvocationView::Run { options: o@ });
                    return Invocation::Run { options: o };
                }
                i = i + 3;
            } else {
                return Invocation::ExportUsage;
            }
        } else if is(&args[i], "--help") || is(&args[i], "-h") {
            return Invocation::Help;
        } else {
            if is(&args[i], "--vault") {
                o.vault_mode = true;
            } else if is(&args[i], "--no-vault") {
                o.vault_mode = false;
            } else if is(&args[i], "--no-encrypted-protocol") {
                o.encrypted_protocol = false;
            }
            i = i + 1;
        }
    }
    Invocation::Run { options: o }
}

proof fn lemma_digits_of_decimal(n: nat)
    ensures
        digits_value(decimal(n)) == Some(n),
        decimal(n).len() > 0,
        '0' <= decimal(n)[0] <= '9',
    decreases n,
{
    reveal_with_fuel(digits_value, 2);
    if n < 10 {
        assert(decimal(n).drop_last() =~= Seq::<char>::empty());
        assert(decimal(n).last() == digit_char(n));
    } else {
        lemma_digits_of_decimal(n / 10);
        assert(decimal(n).drop_last() =~= decimal(n / 10));
        assert(decimal(n).last() == digit_char(n % 10));
    }
}

/// A port is read from its decimal notation; what is larger than a port can be, empty, or
/// holds anything but digits, is none, and the default holds in its place.
pub proof fn law_ports_are_read(port: u16, n: nat, text: Seq<char>, i: int, default: u16)
    ensures
        port_or(decimal(port as nat), default) == port,
        n > 65535 ==> port_or(decimal(n), default) == default,
        port_or(Seq::empty(), default) == default,
        0 < i < text.len() && !('0' <= text[i] <= '9') ==> port_or(text, default) == default,
{
    lemma_digits_of_decimal(port as nat);
    lemma_digits_of_decimal(n);
    if 0 < i < text.len() && !('0' <= text[i] <= '9') {
        let digits = if text[0] == '+' {
            text.drop_first()
        } else {
            text
        };
        let at = if text[0] == '+' {
            i
        } else {
            i + 1
        };
        let head = digits.take(at);
        assert(head.last() == text[i]);
        assert(digits_value(head) is None);
        lemma_bad_prefix(digits, at);
    }
}

/// What holds without arguments: the two ports, no theme, no keys of the user's own, files
/// at rest encrypted, the encrypted protocol, and nothing to import or export.
pub proof fn law_defaults(name: Seq<char>)
    ensures
        ({
            let o = default_options();
            &&& o.http_port == 9000 && o.ws_port == 9001
            &&& o.theme.len() == 0
            &&& o.key_path is None && o.vault_key_path is None && o.generate_key_path is None
            &&& o.vault_mode && o.encrypted_protocol
            &&& o.import_args is None && o.export_args is None
            &&& invocation_from(seq![name], 1, o) == (InvocationView::Run { options: o })
        }),
{
    reveal_strlit("");
}

/// The names of options, each by its own first difference from the others.
proof fn lemma_names_differ()
    ensures
        "--http-port"@ != "--ws-port"@,
        "--http-port"@ != "--theme"@,
        "--http-port"@ != "--key-path"@,
        "--http-port"@ != "--generate-key"@,
        "--http-port"@ != "--vault-key"@,
        "--ws-port"@ != "--theme"@,
        "--ws-port"@ != "--key-path"@,
        "--ws-port"@ != "--generate-key"@,
        "--ws-port"@ != "--vault-key"@,
        "--theme"@ != "--key-path"@,
        "--theme"@ != "--generate-key"@,
        "--theme"@ != "--vault-key"@,
        "--key-path"@ != "--generate-key"@,
        "--key-path"@ != "--vault-key"@,
        "--generate-key"@ != "--vault-key"@,
        !takes_value("import"@),
        !takes_value("export"@),
        !takes_value("--help"@),
        !takes_value("-h"@),
        !takes_value("--vault"@),
        !takes_value("--no-vault"@),
        !takes_value("--no-encrypted-protocol"@),
        "import"@ != "export"@,
        "--help"@ != "import"@,
        "--help"@ != "export"@,
        "-h"@ != "import"@,
        "-h"@ != "export"@,
        "--vault"@ != "import"@ && "--vault"@ != "export"@ && "--vault"@ != "--help"@
            && "--vault"@ != "-h"@,
        "--no-vault"@ != "import"@ && "--no-vault"@ != "export"@ && "--no-vault"@ != "--help"@
            && "--no-vault"@ != "-h"@ && "--no-vault"@ != "--vault"@,
        "--no-encrypted-protocol"@ != "import"@ && "--no-encrypted-protocol"@ != "export"@
            && "--no-encrypted-protocol"@ != "--help"@ && "--no-encrypted-protocol"@ != "-h"@
            && "--no-encrypted-protocol"@ != "--vault"@ && "--no-encrypted-protocol"@
            != "--no-vault"@,
{
    reveal_strlit("--http-port");
    reveal_strlit("--ws-port");
    reveal_strlit("--theme");
    reveal_strlit("--key-path");
    reveal_strlit("--generate-key");
    reveal_strlit("--vault-key");
    reveal_strlit("--vault");
    reveal_strlit("--no-vault");
    reveal_strlit("--no-encrypted-protocol");
    reveal_strlit("import");
    reveal_strlit("export");
    reveal_strlit("--help");
    reveal_strlit("-h");
    assert("--http-port"@[2] == 'h' && "--ws-port"@[2] == 'w' && "--theme"@[2] == 't'
        && "--key-path"@[2] == 'k' && "--generate-key"@[2] == 'g' && "--vault-key"@[2] == 'v'
        && "--vault"@[2] == 'v' && "--no-vault"@[2] == 'n' && "--no-encrypted-protocol"@[2] == 'n'
        && "import"@[0] == 'i' && "export"@[0] == 'e' && "--help"@[2] == 'h' && "-h"@[1] == 'h'
        && "import"@[1] == 'm' && "export"@[1] == 'x');
    assert("--http-port"@.len() == 11 && "--vault"@.len() == 7 && "--vault-key"@.len() == 11
        && "--help"@.len() == 6 && "-h"@.len() == 2 && "--no-vault"@.len() == 10
        && "--no-encrypted-protocol"@.len() == 23 && "import"@.len() == 6 && "export"@.len() == 6);
}

/// An option with a value sets what it names to what follows it, and nothing else; the
/// arguments behind are read on. Without a value it changes nothing.
pub proof fn law_options_with_values(args: Seq<Seq<char>>, i: int, o: OptionsView)
    requires
        0 <= i < args.len(),
    ensures
        ({
            let next = |p: OptionsView| invocation_from(args, i + 2, p);
            let all = invocation_from(args, i, o);
            let name = args[i];
            &&& i + 1 == args.len() && takes_value(name) ==> all == (InvocationView::Run {
                options: o,
            })
            &&& i + 1 < args.len() ==> {
                let v = args[i + 1];
                &&& name == "--http-port"@ ==> all == next(
                    OptionsView { http_port: port_or(v, 9000), ..o },
                )
                &&& name == "--ws-port"@ ==> all == next(
                    OptionsView { ws_port: port_or(v, 9001), ..o },
                )
                &&& name == "--theme"@ ==> all == next(OptionsView { theme: v, ..o })
                &&& name == "--key-path"@ ==> all == next(OptionsView { key_path: Some(v), ..o })
                &&& name == "--generate-key"@ ==> all == next(
                    OptionsView { generate_key_path: Some(v), ..o },
                )
                &&& name == "--vault-key"@ ==> all == next(
                    OptionsView { vault_key_path: Some(v), ..o },
                )
            }
        }),
{
    reveal_with_fuel(invocation_from, 2);
    lemma_names_differ();
}

/// A switch sets what it names; an unknown argument is passed over.
pub proof fn law_switches(args: Seq<Seq<char>>, i: int, o: OptionsView)
    requires
        0 <= i < args.len(),
    ensures
        ({
            let next = |p: OptionsView| invocation_from(args, i + 1, p);
            let all = invocation_from(args, i, o);
            let name = args[i];
            &&& name == "--vault"@ ==> all == next(OptionsView { vault_mode: true, ..o })
            &&& name == "--no-vault"@ ==> all == next(OptionsView { vault_mode: false, ..o })
            &&& name == "--no-encrypted-protocol"@ ==> all == next(
                OptionsView { encrypted_protocol: false, ..o },
            )
            &&& name == "--help"@ || name == "-h"@ ==> all is Help
            &&& name != "--http-port"@ && name != "--ws-port"@ && name != "--theme"@ && name
                != "--key-path"@ && name != "--generate-key"@ && name != "--vault-key"@ && name
                != "import"@ && name != "export"@ && name != "--help"@ && name != "-h"@ && name
                != "--vault"@ && name != "--no-vault"@ && name != "--no-encrypted-protocol"@
                ==> all == next(o)
        }),
{
    lemma_names_differ();
}

/// To import and to export take the two paths that follow; with fewer their use is told.
pub proof fn law_import_and_export(args: Seq<Seq<char>>, i: int, o: OptionsView)
    requires
        0 <= i < args.len(),
    ensures
        ({
            let next = |p: OptionsView| invocation_from(args, i + 3, p);
            let all = invocation_from(args, i, o);
            &&& args[i] == "import"@ && i + 2 >= args.len() ==> all is ImportUsage
            &&& args[i] == "export"@ && i + 2 >= args.len() ==> all is ExportUsage
            &&& args[i] == "import"@ && i + 2 < args.len() ==> all == next(
                OptionsView { import_args: Some((args[i + 1], args[i + 2])), ..o },
            )
            &&& args[i] == "export"@ && i + 2 < args.len() ==> all == next(
                OptionsView { export_args: Some((args[i + 1], args[i + 2])), ..o },
            )
        }),
{
    lemma_names_differ();
}

} // verus!
