//! What is settled before a command runs: the log, the terminal interface, the
//! prompt from a pipe.

use crate::text::{from_chars, same, to_chars};
use vstd::prelude::*;

verus! {

// ---------------------------------------------------------------- log

/// The size above which the log is put aside.
pub const LOG_ROTATE_MAX_BYTES: u64 = 1048576;

/// Whether the log has outgrown its limit.
pub fn should_rotate_log(size: u64) -> (r: bool)
    ensures
        r == (size > LOG_ROTATE_MAX_BYTES),
{
    size > LOG_ROTATE_MAX_BYTES
}

/// Where the log is put aside: the same name with `.old`.
pub fn rotated_log(path: &str) -> (r: String)
    ensures
        r@ == path@ + ".old"@,
{
    let mut s = path.to_owned();
    s.append(".old");
    s
}

// ---------------------------------------------------------------- interface

/// The terminal interface runs no single prompt: one that comes with it is
/// ignored, with a warning.
pub fn tui_com_prompt<'a>(tui: bool, prompt: Option<&'a str>) -> (r: Result<
    Option<&'a str>,
    String,
>)
    ensures
        if tui && prompt is Some {
            r matches Err(w) && w@
                == "aviso: --tui não executa -p/--prompt; o prompt foi ignorado"@
        } else {
            r == Ok::<Option<&'a str>, String>(prompt)
        },
{
    if tui && prompt.is_some() {
        Err("aviso: --tui não executa -p/--prompt; o prompt foi ignorado".to_owned())
    } else {
        Ok(prompt)
    }
}

/// Whether an argument stays: `--tui` goes wherever it stands, `tui` where it is
/// the first argument.
pub open spec fn stays(i: int, a: Seq<char>) -> bool {
    a != "--tui"@ && !(i == 1 && a == "tui"@)
}

/// The arguments that stay, in their order.
pub open spec fn kept(args: Seq<Seq<char>>) -> Seq<Seq<char>>
    decreases args.len(),
{
    if args.len() == 0 {
        Seq::empty()
    } else {
        let before = kept(args.drop_last());
        if stays(args.len() - 1, args.last()) {
            before.push(args.last())
        } else {
            before
        }
    }
}

pub open spec fn has_flag(args: Seq<Seq<char>>) -> bool {
    args.contains("--tui"@)
}

pub open spec fn has_word(args: Seq<Seq<char>>) -> bool {
    args.len() > 1 && args[1] == "tui"@
}

/// The arguments for the parser: the first argument `tui` moves to the end,
/// where the flag does not already say so.
pub open spec fn tui_args(args: Seq<Seq<char>>) -> Seq<Seq<char>> {
    if has_word(args) && !has_flag(args) {
        kept(args).push("tui"@)
    } else {
        kept(args)
    }
}

/// Whether the arguments ask for the terminal interface, and what is left of
/// them for the parser.
pub fn detect_tui_mode(args: &[String]) -> (r: (bool, Vec<String>))
    ensures
        r.0 == (has_flag(args.deep_view()) || has_word(args.deep_view())),
        r.1.deep_view() == tui_args(args.deep_view()),
{
    let ghost all = args.deep_view();
    let mut flag = false;
    let mut out: Vec<String> = Vec::new();
    let mut i: usize = 0;
    assert(all.take(0) =~= Seq::empty());
    while i < args.len()
        invariant
            i <= args@.len(),
            all == args.deep_view(),
            flag == all.take(i as int).contains("--tui"@),
            out.deep_view() == kept(all.take(i as int)),
        decreases args@.len() - i,
    {
        let ghost before = out.deep_view();
        let ghost was = flag;
        let is_flag = same(args[i].as_str(), "--tui");
        proof {
            assert(all[i as int] == args@[i as int]@);
            assert(all.take(i + 1).drop_last() =~= all.take(i as int));
            assert(all.take(i + 1).last() == all[i as int]);
            if is_flag {
                assert(all.take(i + 1)[i as int] == "--tui"@);
            }
            if was {
                let k = choose|k: int| 0 <= k < i && all.take(i as int)[k] == "--tui"@;
                assert(all.take(i + 1)[k] == "--tui"@);
            }
            if all.take(i + 1).contains("--tui"@) && !is_flag {
                let t = all.take(i + 1);
                let k = choose|k: int| 0 <= k < t.len() && t[k] == "--tui"@;
                assert(all.take(i as int)[k] == "--tui"@);
            }
        }
        if is_flag {
            flag = true;
        } else if !(i == 1 && same(args[i].as_str(), "tui")) {
            let a = args[i].clone();
            let ghost one = a@;
            out.push(a);
            assert(out.deep_view() =~= before.push(one));
        }
        i = i + 1;
    }
    assert(all.take(all.len() as int) =~= all);
    let word = args.len() > 1 && same(args[1].as_str(), "tui");
    assert(args@.len() > 1 ==> all[1] == args@[1]@);
    if word && !flag {
        let ghost before = out.deep_view();
        out.push("tui".to_owned());
        assert(out.deep_view() =~= before.push("tui"@));
    }
    (flag || word, out)
}

/// No `--tui` is left for the parser.
pub proof fn law_flag_is_stripped(args: Seq<Seq<char>>)
    ensures
        !tui_args(args).contains("--tui"@),
{
    lemma_kept_plain(args);
    assert(!kept(args).contains("--tui"@));
    if has_word(args) && !has_flag(args) {
        reveal_strlit("--tui");
        reveal_strlit("tui");
        assert("tui"@.len() != "--tui"@.len());
        let all = tui_args(args);
        assert forall|k: int| 0 <= k < all.len() implies all[k] != "--tui"@ by {
            if k < kept(args).len() {
                assert(kept(args).contains(kept(args)[k]));
            }
        }
    }
}

proof fn lemma_kept_plain(args: Seq<Seq<char>>)
    ensures
        !kept(args).contains("--tui"@),
    decreases args.len(),
{
    if args.len() > 0 {
        lemma_kept_plain(args.drop_last());
        let before = kept(args.drop_last());
        let all = kept(args);
        assert forall|k: int| 0 <= k < all.len() implies all[k] != "--tui"@ by {
            if k < before.len() {
                assert(before.contains(before[k]));
            }
        }
    }
}

/// Arguments that do not speak of the interface are handed on as they are.
pub proof fn law_other_arguments_stay(args: Seq<Seq<char>>)
    requires
        !has_flag(args),
        !has_word(args),
    ensures
        tui_args(args) == args,
{
    lemma_kept_all(args);
}

proof fn lemma_kept_all(args: Seq<Seq<char>>)
    requires
        !has_flag(args),
        !has_word(args),
    ensures
        kept(args) == args,
    decreases args.len(),
{
    if args.len() > 0 {
        let d = args.drop_last();
        assert(!has_flag(d)) by {
            if d.contains("--tui"@) {
                let k = choose|k: int| 0 <= k < d.len() && d[k] == "--tui"@;
                assert(args[k] == "--tui"@);
            }
        }
        lemma_kept_all(d);
        assert(args.contains(args.last()));
        assert(d.push(args.last()) =~= args);
    }
}

// ---------------------------------------------------------------- prompt

/// A text without the line breaks at its end.
pub open spec fn chomped(s: Seq<char>) -> Seq<char>
    decreases s.len(),
{
    if s.len() > 0 && (s.last() == '\n' || s.last() == '\r') {
        chomped(s.drop_last())
    } else {
        s
    }
}

/// The prompt that came through a pipe; an empty one is an error.
pub fn stdin_prompt(buf: &str) -> (r: Result<String, String>)
    ensures
        if chomped(buf@).len() == 0 {
            r matches Err(e) && e@
                == "erro: stdin vazio (use -p \"texto\" ou mande conteúdo no pipe)"@
        } else {
            r matches Ok(t) && t@ == chomped(buf@)
        },
        r matches Ok(t) ==> t@.len() > 0 && t@.is_prefix_of(buf@) && t@.last() != '\n' && t@.last() != '\r',
{
    proof {
        law_chomped(buf@);
    }
    let v = to_chars(buf);
    let mut n: usize = v.len();
    assert(buf@.take(n as int) =~= buf@);
    while n > 0 && (v[n - 1] == '\n' || v[n - 1] == '\r')
        invariant
            n <= v@.len(),
            v@ == buf@,
            chomped(buf@) == chomped(buf@.take(n as int)),
        decreases n,
    {
        assert(buf@.take(n as int).drop_last() =~= buf@.take(n - 1));
        n = n - 1;
    }
    if n == 0 {
        return Err("erro: stdin vazio (use -p \"texto\" ou mande conteúdo no pipe)".to_owned());
    }
    assert(buf@.subrange(0, n as int) =~= buf@.take(n as int));
    Ok(from_chars(v.as_slice(), 0, n))
}

/// Whether a newer version is looked for: not where the output is for a program,
/// not in the daemon and not in the terminal interface.
pub fn checks_version(json: bool, daemon: bool, tui: bool) -> (r: bool)
    ensures
        r == (!json && !daemon && !tui),
{
    !json && !daemon && !tui
}

/// Only the words that ask for the interface are taken out: every other argument
/// stays, in its order.
pub proof fn law_kept_in_order(args: Seq<Seq<char>>, last: Seq<char>)
    requires
        args.len() > 1,
    ensures
        kept(args.push(last)) == if last == "--tui"@ {
            kept(args)
        } else {
            kept(args).push(last)
        },
{
    assert(args.push(last).drop_last() =~= args);
}

/// Ends of lines are cut off the end of a text, all of them, and nothing else.
pub proof fn law_chomped(s: Seq<char>)
    ensures
        chomped(s).is_prefix_of(s),
        chomped(s).len() > 0 ==> chomped(s).last() != '\n' && chomped(s).last() != '\r',
        forall|k: int|
            chomped(s).len() <= k < s.len() ==> #[trigger] s[k] == '\n' || s[k] == '\r',
    decreases s.len(),
{
    if s.len() > 0 && (s.last() == '\n' || s.last() == '\r') {
        law_chomped(s.drop_last());
        assert forall|k: int| chomped(s).len() <= k < s.len() implies #[trigger] s[k] == '\n'
            || s[k] == '\r' by {
            if k < s.len() - 1 {
                assert(s.drop_last()[k] == s[k]);
            }
        }
    }
}

/// The word that asks for the interface is moved behind the other arguments.
pub proof fn law_word_moves_to_the_end(args: Seq<Seq<char>>)
    requires
        has_word(args),
        !has_flag(args),
    ensures
        tui_args(args) == seq![args[0]] + args.skip(2) + seq!["tui"@],
{
    lemma_kept_without_word(args);
    assert((seq![args[0]] + args.skip(2)).push("tui"@) =~= seq![args[0]] + args.skip(2) + seq![
        "tui"@,
    ]);
}

proof fn lemma_kept_without_word(args: Seq<Seq<char>>)
    requires
        has_word(args),
        !has_flag(args),
    ensures
        kept(args) == seq![args[0]] + args.skip(2),
    decreases args.len(),
{
    let n = args.len() - 1;
    let before = args.drop_last();
    assert(args[n] != "--tui"@);
    assert(args[0] != "--tui"@);
    if args.len() == 2 {
        reveal_with_fuel(kept, 3);
        assert(before.drop_last() =~= Seq::empty());
        assert(kept(args) =~= seq![args[0]] + args.skip(2));
    } else {
        assert(before[1] == args[1]);
        assert(!has_flag(before)) by {
            if has_flag(before) {
                let k = choose|k: int| 0 <= k < before.len() && before[k] == "--tui"@;
                assert(args[k] == "--tui"@);
            }
        }
        lemma_kept_without_word(before);
        assert(before.skip(2).push(args.last()) =~= args.skip(2));
        assert(kept(args) =~= seq![args[0]] + args.skip(2));
    }
}

} // verus!
