//! The textual grammar of a binding: zero or more modifier tokens and at
//! most one key-symbol name, joined by `+`. Parsing an empty or all-modifier
//! string yields an unset binding. Modifier tokens are matched without
//! regard to ASCII case; a key-symbol name is one or more ASCII letters,
//! digits or underscores that is not itself a modifier token.

use vstd::prelude::*;
use vstd::string::StrSliceExecFns;
use crate::binding::{Binding, BindingView};
use crate::keys::Modifiers;

verus! {

/// ASCII lowering of one character.
pub open spec fn lower_char(c: char) -> char {
    if 65 <= c as u32 && c as u32 <= 90 {
        (((c as u32) + 32) as u8) as char
    } else {
        c
    }
}

/// ASCII lowering of a string.
pub open spec fn lower(s: Seq<char>) -> Seq<char> {
    s.map_values(|c: char| lower_char(c))
}

/// A character a key-symbol name may hold.
pub open spec fn is_name_char(c: char) -> bool {
    let u = c as u32;
    (97 <= u && u <= 122)  // a-z
    || (65 <= u && u <= 90)  // A-Z
    || (48 <= u && u <= 57)  // 0-9
    || u == 95  // _
}

/// A token that names a modifier, matched without regard to ASCII case.
pub open spec fn is_mod_token(t: Seq<char>) -> bool {
    lower(t) == "ctrl"@ || lower(t) == "alt"@ || lower(t) == "shift"@ || lower(t) == "super"@
}

/// A token that can stand as a key-symbol name.
pub open spec fn valid_key_name(t: Seq<char>) -> bool {
    t.len() > 0 && (forall|i: int| 0 <= i < t.len() ==> is_name_char(t[i])) && !is_mod_token(t)
}

/// A binding whose key, if set, is a key-symbol name the grammar can carry.
pub open spec fn binding_wf(b: BindingView) -> bool {
    match b.key {
        Some(k) => valid_key_name(k),
        None => true,
    }
}

/// Splitting on `+`, with the token read so far in `cur`.
pub open spec fn split_acc(s: Seq<char>, cur: Seq<char>) -> Seq<Seq<char>>
    decreases s.len(),
{
    if s.len() == 0 {
        seq![cur]
    } else if s[0] == '+' {
        seq![cur] + split_acc(s.drop_first(), Seq::empty())
    } else {
        split_acc(s.drop_first(), cur.push(s[0]))
    }
}

/// The tokens of `s`: the pieces between `+` separators, in order.
pub open spec fn split_plus(s: Seq<char>) -> Seq<Seq<char>> {
    split_acc(s, Seq::empty())
}

/// The tokens joined back with `+` separators.
pub open spec fn join_plus(ts: Seq<Seq<char>>) -> Seq<char>
    decreases ts.len(),
{
    if ts.len() == 0 {
        Seq::empty()
    } else if ts.len() == 1 {
        ts[0]
    } else {
        ts[0].push('+') + join_plus(ts.drop_first())
    }
}

/// One token folded into the binding read so far: a modifier token sets its
/// flag, a key-symbol name becomes the key (a later one overwrites an
/// earlier), anything else is a parse error.
pub open spec fn apply_token(acc: BindingView, t: Seq<char>) -> Option<BindingView> {
    let m = acc.modifiers;
    if lower(t) == "ctrl"@ {
        Some(BindingView { modifiers: Modifiers { ctrl: true, ..m }, ..acc })
    } else if lower(t) == "alt"@ {
        Some(BindingView { modifiers: Modifiers { alt: true, ..m }, ..acc })
    } else if lower(t) == "shift"@ {
        Some(BindingView { modifiers: Modifiers { shift: true, ..m }, ..acc })
    } else if lower(t) == "super"@ {
        Some(BindingView { modifiers: Modifiers { logo: true, ..m }, ..acc })
    } else if valid_key_name(t) {
        Some(BindingView { key: Some(t), ..acc })
    } else {
        None
    }
}

/// The tokens folded left to right, starting from the unset binding.
pub open spec fn parse_tokens(ts: Seq<Seq<char>>) -> Option<BindingView>
    decreases ts.len(),
{
    if ts.len() == 0 {
        Some(BindingView::unset())
    } else {
        match parse_tokens(ts.drop_last()) {
            None => None,
            Some(acc) => apply_token(acc, ts.last()),
        }
    }
}

/// What parsing a string yields: `None` is a parse error.
pub open spec fn parse_spec(s: Seq<char>) -> Option<BindingView> {
    if s.len() == 0 {
        Some(BindingView::unset())
    } else {
        parse_tokens(split_plus(s))
    }
}

/// The token list a binding formats to: enabled modifiers in the canonical
/// order Ctrl, Alt, Shift, Super, then the key-symbol name.
pub open spec fn format_tokens(b: BindingView) -> Seq<Seq<char>> {
    let ts0 = Seq::<Seq<char>>::empty();
    let ts1 = if b.modifiers.ctrl {
        ts0.push("Ctrl"@)
    } else {
        ts0
    };
    let ts2 = if b.modifiers.alt {
        ts1.push("Alt"@)
    } else {
        ts1
    };
    let ts3 = if b.modifiers.shift {
        ts2.push("Shift"@)
    } else {
        ts2
    };
    let ts4 = if b.modifiers.logo {
        ts3.push("Super"@)
    } else {
        ts3
    };
    match b.key {
        Some(k) => ts4.push(k),
        None => ts4,
    }
}

/// The canonical string form of a binding.
pub open spec fn format_spec(b: BindingView) -> Seq<char> {
    join_plus(format_tokens(b))
}

/// A parse failure: some token is neither a modifier nor a key-symbol name.
#[derive(Clone, Copy, Debug, PartialEq, Eq, Structural)]
pub struct ParseError;

/// A string without a `+` separator.
pub open spec fn plus_free(t: Seq<char>) -> bool {
    forall|i: int| 0 <= i < t.len() ==> t[i] != '+'
}

fn lower_char_exec(c: char) -> (r: char)
    ensures
        r == lower_char(c),
{
    let u = c as u32;
    if 65 <= u && u <= 90 {
        ((u + 32) as u8) as char
    } else {
        c
    }
}

pub(crate) fn is_name_char_exec(c: char) -> (r: bool)
    ensures
        r == is_name_char(c),
{
    let u = c as u32;
    (97 <= u && u <= 122) || (65 <= u && u <= 90) || (48 <= u && u <= 57) || u == 95
}

/// Whether the ASCII lowering of `t` equals `lit`.
fn token_lower_matches(t: &str, lit: &str) -> (r: bool)
    ensures
        r == (lower(t@) == lit@),
{
    let n = t.unicode_len();
    let m = lit.unicode_len();
    if n != m {
        proof {
            assert(lower(t@).len() == t@.len());
        }
        return false;
    }
    let mut i: usize = 0;
    while i < n
        invariant
            i <= n,
            n == t@.len(),
            n == lit@.len(),
            forall|j: int| 0 <= j < i ==> lower_char(t@[j]) == lit@[j],
        decreases n - i,
    {
        let c = t.get_char(i);
        let d = lit.get_char(i);
        if lower_char_exec(c) != d {
            proof {
                assert(lower(t@)[i as int] == lower_char(t@[i as int]));
            }
            return false;
        }
        i = i + 1;
    }
    proof {
        assert(lower(t@) =~= lit@);
    }
    true
}

/// Whether `t` is one or more name characters.
fn all_name_chars(t: &str) -> (r: bool)
    ensures
        r == (t@.len() > 0 && (forall|i: int| 0 <= i < t@.len() ==> is_name_char(t@[i]))),
{
    let n = t.unicode_len();
    if n == 0 {
        return false;
    }
    let mut i: usize = 0;
    while i < n
        invariant
            i <= n,
            n == t@.len(),
            forall|j: int| 0 <= j < i ==> is_name_char(t@[j]),
        decreases n - i,
    {
        if !is_name_char_exec(t.get_char(i)) {
            return false;
        }
        i = i + 1;
    }
    true
}

/// One token folded into the binding read so far.
fn apply_token_exec(acc: Binding, t: &str) -> (r: Result<Binding, ParseError>)
    ensures
        match r {
            Ok(b) => apply_token(acc@, t@) == Some(b@),
            Err(_) => apply_token(acc@, t@) is None,
        },
{
    let m = acc.modifiers;
    if token_lower_matches(t, "ctrl") {
        Ok(Binding { modifiers: Modifiers { ctrl: true, ..m }, ..acc })
    } else if token_lower_matches(t, "alt") {
        Ok(Binding { modifiers: Modifiers { alt: true, ..m }, ..acc })
    } else if token_lower_matches(t, "shift") {
        Ok(Binding { modifiers: Modifiers { shift: true, ..m }, ..acc })
    } else if token_lower_matches(t, "super") {
        Ok(Binding { modifiers: Modifiers { logo: true, ..m }, ..acc })
    } else if all_name_chars(t) {
        Ok(Binding { modifiers: acc.modifiers, key: Some(String::from_str(t)) })
    } else {
        Err(ParseError)
    }
}

/// A `None` prefix of the fold makes the whole fold `None`.
proof fn lemma_parse_prefix_none(ts: Seq<Seq<char>>, j: int)
    requires
        0 <= j <= ts.len(),
        parse_tokens(ts.take(j)) is None,
    ensures
        parse_tokens(ts) is None,
    decreases ts.len() - j,
{
    if j == ts.len() {
        assert(ts.take(j) =~= ts);
    } else {
        assert(ts.take(j + 1).drop_last() =~= ts.take(j));
        assert(ts.take(j + 1).last() == ts[j]);
        lemma_parse_prefix_none(ts, j + 1);
    }
}

impl Binding {
    /// Parses the canonical string form of a binding. An empty string
    /// yields the unset binding; a token that is neither a modifier nor a
    /// key-symbol name is an error and nothing else is.
    pub fn parse(s: &str) -> (r: Result<Binding, ParseError>)
        ensures
            match r {
                Ok(b) => parse_spec(s@) == Some(b@),
                Err(_) => parse_spec(s@) is None,
            },
    {
        let n = s.unicode_len();
        if n == 0 {
            return Ok(Binding::unset());
        }
        // Token boundaries: the pieces between `+` separators.
        let mut bounds: Vec<(usize, usize)> = Vec::new();
        let mut start: usize = 0;
        let mut i: usize = 0;
        proof {
            assert(s@.skip(0) =~= s@);
            assert(s@.subrange(0, 0) =~= Seq::<char>::empty());
            assert(bounds@.map_values(|p: (usize, usize)| s@.subrange(p.0 as int, p.1 as int))
                =~= Seq::<Seq<char>>::empty());
        }
        while i < n
            invariant
                start <= i <= n,
                n == s@.len(),
                forall|j: int| 0 <= j < bounds@.len()
                    ==> #[trigger] bounds@[j].0 <= bounds@[j].1 <= n,
                split_plus(s@) == bounds@.map_values(
                    |p: (usize, usize)| s@.subrange(p.0 as int, p.1 as int),
                ) + split_acc(s@.skip(i as int), s@.subrange(start as int, i as int)),
            decreases n - i,
        {
            let ghost done = bounds@.map_values(
                |p: (usize, usize)| s@.subrange(p.0 as int, p.1 as int),
            );
            let ghost cur = s@.subrange(start as int, i as int);
            proof {
                assert(s@.skip(i as int)[0] == s@[i as int]);
                assert(s@.skip(i as int).drop_first() =~= s@.skip(i + 1));
            }
            let c = s.get_char(i);
            if c == '+' {
                bounds.push((start, i));
                proof {
                    assert(bounds@.map_values(
                        |p: (usize, usize)| s@.subrange(p.0 as int, p.1 as int),
                    ) =~= done.push(cur));
                    assert(s@.subrange(i + 1, i + 1) =~= Seq::<char>::empty());
                    assert(done.push(cur) + split_acc(s@.skip(i + 1), Seq::<char>::empty())
                        =~= done + (seq![cur] + split_acc(s@.skip(i + 1), Seq::<char>::empty())));
                }
                start = i + 1;
            } else {
                proof {
                    assert(cur.push(s@[i as int]) =~= s@.subrange(start as int, i + 1));
                }
            }
            i = i + 1;
        }
        let ghost done = bounds@.map_values(
            |p: (usize, usize)| s@.subrange(p.0 as int, p.1 as int),
        );
        proof {
            assert(s@.skip(n as int) =~= Seq::<char>::empty());
        }
        bounds.push((start, n));
        let ghost toks = bounds@.map_values(
            |p: (usize, usize)| s@.subrange(p.0 as int, p.1 as int),
        );
        proof {
            assert(toks =~= done.push(s@.subrange(start as int, n as int)));
            assert(split_plus(s@) == toks);
        }
        // Fold the tokens left to right.
        let mut acc = Binding::unset();
        let mut k: usize = 0;
        let nb = bounds.len();
        proof {
            assert(toks.take(0) =~= Seq::<Seq<char>>::empty());
        }
        while k < nb
            invariant
                k <= nb,
                nb == bounds@.len(),
                nb == toks.len(),
                toks == bounds@.map_values(
                    |p: (usize, usize)| s@.subrange(p.0 as int, p.1 as int),
                ),
                forall|j: int| 0 <= j < bounds@.len()
                    ==> #[trigger] bounds@[j].0 <= bounds@[j].1 <= s@.len(),
                parse_tokens(toks.take(k as int)) == Some(acc@),
                parse_tokens(toks) == parse_spec(s@),
            decreases nb - k,
        {
            let st = bounds[k].0;
            let en = bounds[k].1;
            let t = s.substring_char(st, en);
            proof {
                assert(toks[k as int] == s@.subrange(st as int, en as int));
                assert(toks.take(k + 1).drop_last() =~= toks.take(k as int));
                assert(toks.take(k + 1).last() == toks[k as int]);
            }
            match apply_token_exec(acc, t) {
                Ok(b) => {
                    acc = b;
                },
                Err(e) => {
                    proof {
                        lemma_parse_prefix_none(toks, k + 1);
                    }
                    return Err(e);
                },
            }
            k = k + 1;
        }
        proof {
            assert(toks.take(nb as int) =~= toks);
        }
        Ok(acc)
    }

    /// The canonical string form: enabled modifiers in the order Ctrl, Alt,
    /// Shift, Super, then the key-symbol name, joined by `+`.
    pub fn format(&self) -> (r: String)
        ensures
            r@ == format_spec(self@),
    {
        let mut out = String::new();
        let mut first = true;
        let ghost mut ts = Seq::<Seq<char>>::empty();
        if self.modifiers.ctrl {
            proof {
                lemma_join_snoc(ts, "Ctrl"@);
                reveal_strlit("+");
            }
            if !first {
                out.append("+");
            }
            out.append("Ctrl");
            first = false;
            proof {
                ts = ts.push("Ctrl"@);
                assert(out@ =~= join_plus(ts));
            }
        }
        if self.modifiers.alt {
            proof {
                lemma_join_snoc(ts, "Alt"@);
                reveal_strlit("+");
            }
            if !first {
                out.append("+");
            }
            out.append("Alt");
            first = false;
            proof {
                ts = ts.push("Alt"@);
                assert(out@ =~= join_plus(ts));
            }
        }
        if self.modifiers.shift {
            proof {
                lemma_join_snoc(ts, "Shift"@);
                reveal_strlit("+");
            }
            if !first {
                out.append("+");
            }
            out.append("Shift");
            first = false;
            proof {
                ts = ts.push("Shift"@);
                assert(out@ =~= join_plus(ts));
            }
        }
        if self.modifiers.logo {
            proof {
                lemma_join_snoc(ts, "Super"@);
                reveal_strlit("+");
            }
            if !first {
                out.append("+");
            }
            out.append("Super");
            first = false;
            proof {
                ts = ts.push("Super"@);
                assert(out@ =~= join_plus(ts));
            }
        }
        match &self.key {
            Some(kk) => {
                proof {
                    lemma_join_snoc(ts, kk@);
                    reveal_strlit("+");
                }
                if !first {
                    out.append("+");
                }
                out.append(kk.as_str());
                proof {
                    ts = ts.push(kk@);
                    assert(out@ =~= join_plus(ts));
                }
            },
            None => {},
        }
        proof {
            assert(ts == format_tokens(self@));
        }
        out
    }
}

/// The modifier tokens, their lowerings, and their freedom from `+`.
proof fn lemma_mod_literals()
    ensures
        lower("Ctrl"@) == "ctrl"@,
        lower("Alt"@) == "alt"@,
        lower("Shift"@) == "shift"@,
        lower("Super"@) == "super"@,
        plus_free("Ctrl"@) && "Ctrl"@.len() > 0,
        plus_free("Alt"@) && "Alt"@.len() > 0,
        plus_free("Shift"@) && "Shift"@.len() > 0,
        plus_free("Super"@) && "Super"@.len() > 0,
        "alt"@ != "ctrl"@,
        "shift"@ != "ctrl"@ && "shift"@ != "alt"@,
        "super"@ != "ctrl"@ && "super"@ != "alt"@ && "super"@ != "shift"@,
{
    reveal_strlit("Ctrl");
    reveal_strlit("ctrl");
    reveal_strlit("Alt");
    reveal_strlit("alt");
    reveal_strlit("Shift");
    reveal_strlit("shift");
    reveal_strlit("Super");
    reveal_strlit("super");
    assert(lower("Ctrl"@) =~= "ctrl"@);
    assert(lower("Alt"@) =~= "alt"@);
    assert(lower("Shift"@) =~= "shift"@);
    assert(lower("Super"@) =~= "super"@);
    assert("super"@[1] != "shift"@[1]);
}

/// Splitting walks over a separator-free piece by accumulating it.
proof fn lemma_split_acc_plusfree(t: Seq<char>, s: Seq<char>, cur: Seq<char>)
    requires
        plus_free(t),
    ensures
        split_acc(t + s, cur) == split_acc(s, cur + t),
    decreases t.len(),
{
    if t.len() == 0 {
        assert(t + s =~= s);
        assert(cur + t =~= cur);
    } else {
        assert((t + s)[0] == t[0]);
        assert((t + s).drop_first() =~= t.drop_first() + s);
        assert(plus_free(t.drop_first())) by {
            assert(forall|i: int|
                0 <= i < t.drop_first().len() ==> t.drop_first()[i] == t[i + 1]);
        }
        lemma_split_acc_plusfree(t.drop_first(), s, cur.push(t[0]));
        assert(cur.push(t[0]) + t.drop_first() =~= cur + t);
    }
}

/// Splitting is the inverse of joining separator-free tokens.
proof fn lemma_split_join(ts: Seq<Seq<char>>)
    requires
        ts.len() >= 1,
        forall|k: int| 0 <= k < ts.len() ==> plus_free(#[trigger] ts[k]),
    ensures
        split_plus(join_plus(ts)) == ts,
    decreases ts.len(),
{
    if ts.len() == 1 {
        assert(ts[0] + Seq::<char>::empty() =~= ts[0]);
        lemma_split_acc_plusfree(ts[0], Seq::<char>::empty(), Seq::<char>::empty());
        assert(Seq::<char>::empty() + ts[0] =~= ts[0]);
        assert(split_acc(Seq::<char>::empty(), ts[0]) == seq![ts[0]]);
        assert(seq![ts[0]] =~= ts);
    } else {
        let rest = ts.drop_first();
        assert(join_plus(ts) == ts[0].push('+') + join_plus(rest));
        assert(ts[0].push('+') + join_plus(rest) =~= ts[0] + (seq!['+'] + join_plus(rest)));
        lemma_split_acc_plusfree(ts[0], seq!['+'] + join_plus(rest), Seq::<char>::empty());
        assert(Seq::<char>::empty() + ts[0] =~= ts[0]);
        assert((seq!['+'] + join_plus(rest))[0] == '+');
        assert((seq!['+'] + join_plus(rest)).drop_first() =~= join_plus(rest));
        assert(forall|k: int| 0 <= k < rest.len() ==> plus_free(#[trigger] rest[k])) by {
            assert(forall|k: int| 0 <= k < rest.len() ==> rest[k] == ts[k + 1]);
        }
        lemma_split_join(rest);
        assert(seq![ts[0]] + rest =~= ts);
    }
}

/// Folding the formatted token list back yields the binding itself.
proof fn lemma_parse_format_tokens(b: BindingView)
    requires
        binding_wf(b),
    ensures
        parse_tokens(format_tokens(b)) == Some(b),
{
    lemma_mod_literals();
    let m = b.modifiers;
    let ts0 = Seq::<Seq<char>>::empty();
    let acc0 = BindingView::unset();
    assert(parse_tokens(ts0) == Some(acc0));
    let ts1 = if m.ctrl {
        ts0.push("Ctrl"@)
    } else {
        ts0
    };
    let acc1 = BindingView {
        modifiers: Modifiers { ctrl: m.ctrl, ..acc0.modifiers },
        ..acc0
    };
    if m.ctrl {
        assert(ts1.drop_last() =~= ts0);
        assert(parse_tokens(ts1) == apply_token(acc0, "Ctrl"@));
        assert(parse_tokens(ts1) == Some(acc1));
    } else {
        assert(parse_tokens(ts1) == Some(acc1));
    }
    let ts2 = if m.alt {
        ts1.push("Alt"@)
    } else {
        ts1
    };
    let acc2 = BindingView {
        modifiers: Modifiers { alt: m.alt, ..acc1.modifiers },
        ..acc1
    };
    if m.alt {
        assert(ts2.drop_last() =~= ts1);
        assert(parse_tokens(ts2) == apply_token(acc1, "Alt"@));
        assert(parse_tokens(ts2) == Some(acc2));
    } else {
        assert(parse_tokens(ts2) == Some(acc2));
    }
    let ts3 = if m.shift {
        ts2.push("Shift"@)
    } else {
        ts2
    };
    let acc3 = BindingView {
        modifiers: Modifiers { shift: m.shift, ..acc2.modifiers },
        ..acc2
    };
    if m.shift {
        assert(ts3.drop_last() =~= ts2);
        assert(parse_tokens(ts3) == apply_token(acc2, "Shift"@));
        assert(parse_tokens(ts3) == Some(acc3));
    } else {
        assert(parse_tokens(ts3) == Some(acc3));
    }
    let ts4 = if m.logo {
        ts3.push("Super"@)
    } else {
        ts3
    };
    let acc4 = BindingView {
        modifiers: Modifiers { logo: m.logo, ..acc3.modifiers },
        ..acc3
    };
    if m.logo {
        assert(ts4.drop_last() =~= ts3);
        assert(parse_tokens(ts4) == apply_token(acc3, "Super"@));
        assert(parse_tokens(ts4) == Some(acc4));
    } else {
        assert(parse_tokens(ts4) == Some(acc4));
    }
    assert(acc4.modifiers == m);
    match b.key {
        Some(k) => {
            let ts5 = ts4.push(k);
            assert(ts5.drop_last() =~= ts4);
            assert(valid_key_name(k));
            assert(parse_tokens(ts5) == apply_token(acc4, k));
            assert(apply_token(acc4, k) == Some(BindingView { key: Some(k), ..acc4 }));
            assert(BindingView { key: Some(k), ..acc4 } == b);
            assert(ts5 == format_tokens(b));
        },
        None => {
            assert(acc4 == b);
            assert(ts4 == format_tokens(b));
        },
    }
}

/// Every formatted token is free of separators and nonempty.
proof fn lemma_format_tokens_wf(b: BindingView)
    requires
        binding_wf(b),
    ensures
        forall|k: int| 0 <= k < format_tokens(b).len()
            ==> plus_free(#[trigger] format_tokens(b)[k]) && format_tokens(b)[k].len() > 0,
{
    lemma_mod_literals();
    let ts = format_tokens(b);
    match b.key {
        Some(key) => {
            assert(plus_free(key) && key.len() > 0) by {
                assert(forall|i: int| 0 <= i < key.len() ==> is_name_char(key[i]));
                assert(!is_name_char('+'));
            }
        },
        None => {},
    }
    assert forall|k: int| 0 <= k < ts.len() implies plus_free(#[trigger] ts[k]) && ts[k].len()
        > 0 by {
        assert(ts[k] == "Ctrl"@ || ts[k] == "Alt"@ || ts[k] == "Shift"@ || ts[k] == "Super"@ || (
        b.key is Some && ts[k] == b.key.unwrap()));
    }
}

/// Round trip: parsing the canonical form of any well-formed binding gives
/// the binding back.
pub proof fn lemma_parse_format_roundtrip(b: BindingView)
    requires
        binding_wf(b),
    ensures
        parse_spec(format_spec(b)) == Some(b),
{
    lemma_parse_format_tokens(b);
    lemma_format_tokens_wf(b);
    let ts = format_tokens(b);
    if ts.len() == 0 {
        assert(parse_tokens(ts) == Some(BindingView::unset()));
        assert(format_spec(b) == Seq::<char>::empty());
    } else {
        lemma_split_join(ts);
        if ts.len() == 1 {
            assert(format_spec(b) == ts[0]);
            assert(ts[0].len() > 0);
        } else {
            assert(format_spec(b) == ts[0].push('+') + join_plus(ts.drop_first()));
            assert(format_spec(b).len() > 0);
        }
    }
}

/// Appending one token joins it with a separator, unless it is the first.
proof fn lemma_join_snoc(ts: Seq<Seq<char>>, t: Seq<char>)
    ensures
        ts.len() == 0 ==> join_plus(ts.push(t)) == t,
        ts.len() > 0 ==> join_plus(ts.push(t)) == join_plus(ts) + seq!['+'] + t,
    decreases ts.len(),
{
    if ts.len() == 0 {
        assert(ts.push(t)[0] == t);
    } else if ts.len() == 1 {
        assert(ts.push(t).drop_first() =~= seq![t]);
        assert(ts.push(t)[0] == ts[0]);
        assert(join_plus(seq![t]) == t);
        assert(join_plus(ts.push(t)) == ts[0].push('+') + t);
        assert(ts[0].push('+') + t =~= ts[0] + seq!['+'] + t);
    } else {
        assert(ts.push(t).drop_first() =~= ts.drop_first().push(t));
        lemma_join_snoc(ts.drop_first(), t);
        assert(join_plus(ts.push(t)) == ts[0].push('+') + (join_plus(ts.drop_first()) + seq![
            '+',
        ] + t));
        assert(ts[0].push('+') + (join_plus(ts.drop_first()) + seq!['+'] + t) =~= (ts[0].push('+')
            + join_plus(ts.drop_first())) + seq!['+'] + t);
    }
}

} // verus!
