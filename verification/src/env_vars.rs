//! `${NAME}` placeholders in MCP config text, and their substitution from a
//! snapshot of environment variables.

use vstd::prelude::*;
use crate::text::{chars_of, push_str, str_equal, string_from, string_of_chars};

verus! {

/// The index of the first `'}'` in `s`, if any.
pub open spec fn first_close(s: Seq<char>) -> Option<nat>
    decreases s.len(),
{
    if s.len() == 0 {
        None
    } else if s[0] == '}' {
        Some(0)
    } else {
        match first_close(s.drop_first()) {
            Some(i) => Some(i + 1),
            None => None,
        }
    }
}

/// Whether a placeholder starts at the beginning of `s`: `"${"` followed, later,
/// by a `'}'` that closes it.
pub open spec fn placeholder_at(s: Seq<char>) -> bool {
    s.len() >= 2 && s[0] == '$' && s[1] == '{' && first_close(s.skip(2)) is Some
}

/// The name of the placeholder at the beginning of `s`: the characters between
/// `"${"` and the first `'}'` after it.
pub open spec fn placeholder_name(s: Seq<char>) -> Seq<char> {
    s.subrange(2, 2 + (first_close(s.skip(2))->0) as int)
}

/// The length of the placeholder at the beginning of `s`, braces included.
pub open spec fn placeholder_len(s: Seq<char>) -> int {
    3 + (first_close(s.skip(2))->0) as int
}

/// The value of `name` in an environment snapshot (its first entry).
pub open spec fn env_value(env: Seq<(String, String)>, name: Seq<char>) -> Option<Seq<char>>
    decreases env.len(),
{
    if env.len() == 0 {
        None
    } else if env[0].0@ == name {
        Some(env[0].1@)
    } else {
        env_value(env.drop_first(), name)
    }
}

/// `r` with `prefix` put in front of its text; an error is kept as it is.
pub open spec fn prepend(prefix: Seq<char>, r: Result<Seq<char>, Seq<char>>) -> Result<Seq<char>, Seq<char>> {
    match r {
        Ok(t) => Ok(prefix + t),
        Err(name) => Err(name),
    }
}

/// `s` with each `${NAME}` placeholder, left to right, replaced by the value of
/// `NAME` in `env`; the error is the name of the first placeholder whose
/// variable is missing or empty. A `"${"` that no `'}'` closes is kept as text.
pub open spec fn substituted(s: Seq<char>, env: Seq<(String, String)>) -> Result<Seq<char>, Seq<char>>
    decreases s.len(),
{
    if s.len() == 0 {
        Ok(Seq::empty())
    } else if placeholder_at(s) {
        let name = placeholder_name(s);
        match env_value(env, name) {
            Some(v) if v.len() > 0 => {
                proof { lemma_first_close_bound(s.skip(2)); }
                prepend(v, substituted(s.skip(placeholder_len(s)), env))
            },
            _ => Err(name),
        }
    } else {
        prepend(seq![s[0]], substituted(s.drop_first(), env))
    }
}

/// The placeholder names of `s`, left to right.
pub open spec fn placeholder_names(s: Seq<char>) -> Seq<Seq<char>>
    decreases s.len(),
{
    if s.len() == 0 {
        Seq::empty()
    } else if placeholder_at(s) {
        proof { lemma_first_close_bound(s.skip(2)); }
        seq![placeholder_name(s)] + placeholder_names(s.skip(placeholder_len(s)))
    } else {
        placeholder_names(s.drop_first())
    }
}

/// Whether the variable `name` has a nonempty value in `env`.
pub open spec fn env_has_value(env: Seq<(String, String)>, name: Seq<char>) -> bool {
    env_value(env, name) matches Some(v) && v.len() > 0
}

/// Substitution succeeds exactly when every placeholder's variable has a
/// nonempty value; otherwise the error names the first placeholder, left to
/// right, whose variable has none.
pub proof fn lemma_substitution_succeeds_iff_all_set(s: Seq<char>, env: Seq<(String, String)>)
    ensures
        substituted(s, env) is Ok <==> forall|i: int| 0 <= i < placeholder_names(s).len()
            ==> env_has_value(env, #[trigger] placeholder_names(s)[i]),
        substituted(s, env) matches Err(name) ==> exists|i: int| 0 <= i < placeholder_names(s).len()
            && placeholder_names(s)[i] == name
            && !env_has_value(env, name)
            && forall|j: int| 0 <= j < i ==> env_has_value(env, #[trigger] placeholder_names(s)[j]),
    decreases s.len(),
{
    if s.len() == 0 {
    } else if placeholder_at(s) {
        lemma_first_close_bound(s.skip(2));
        let name = placeholder_name(s);
        let rest = s.skip(placeholder_len(s));
        let names = placeholder_names(s);
        assert(names == seq![name] + placeholder_names(rest));
        assert(names[0] == name);
        assert forall|i: int| 0 <= i < placeholder_names(rest).len()
            implies #[trigger] names[i + 1] == placeholder_names(rest)[i] by {}
        lemma_substitution_succeeds_iff_all_set(rest, env);
        if env_has_value(env, name) {
            if substituted(rest, env) is Ok {
                assert forall|i: int| 0 <= i < names.len() implies env_has_value(env, #[trigger] names[i]) by {
                    if i > 0 {
                        assert(names[i] == placeholder_names(rest)[i - 1]);
                    }
                }
            } else {
                let j = choose|j: int| 0 <= j < placeholder_names(rest).len()
                    && !env_has_value(env, #[trigger] placeholder_names(rest)[j]);
                assert(names[j + 1] == placeholder_names(rest)[j]);
                let err = substituted(rest, env)->Err_0;
                let k = choose|k: int| 0 <= k < placeholder_names(rest).len()
                    && placeholder_names(rest)[k] == err
                    && !env_has_value(env, err)
                    && forall|m: int| 0 <= m < k ==> env_has_value(env, #[trigger] placeholder_names(rest)[m]);
                assert(names[k + 1] == err);
                assert forall|m: int| 0 <= m < k + 1 implies env_has_value(env, #[trigger] names[m]) by {
                    if m > 0 {
                        assert(names[m] == placeholder_names(rest)[m - 1]);
                    }
                }
            }
        } else {
            assert(!env_has_value(env, names[0]));
        }
    } else {
        lemma_substitution_succeeds_iff_all_set(s.drop_first(), env);
        assert(placeholder_names(s) == placeholder_names(s.drop_first()));
    }
}

/// A text without placeholders comes back unchanged.
pub proof fn lemma_text_without_placeholders_is_unchanged(s: Seq<char>, env: Seq<(String, String)>)
    requires
        placeholder_names(s).len() == 0,
    ensures
        substituted(s, env) == Ok::<Seq<char>, Seq<char>>(s),
    decreases s.len(),
{
    if s.len() > 0 {
        if placeholder_at(s) {
            lemma_first_close_bound(s.skip(2));
            assert(placeholder_names(s).len() > 0);
        } else {
            lemma_text_without_placeholders_is_unchanged(s.drop_first(), env);
            assert(seq![s[0]] + s.drop_first() =~= s);
        }
    } else {
        assert(s =~= Seq::<char>::empty());
    }
}

/// The first `'}'` lies within the sequence.
pub proof fn lemma_first_close_bound(s: Seq<char>)
    ensures
        first_close(s) matches Some(i) ==> i < s.len() && s[i as int] == '}'
            && forall|j: int| 0 <= j < i ==> s[j] != '}',
    decreases s.len(),
{
    if s.len() > 0 && s[0] != '}' {
        lemma_first_close_bound(s.drop_first());
        if first_close(s) is Some {
            let i = first_close(s)->0;
            assert forall|j: int| 0 <= j < i implies s[j] != '}' by {
                if j > 0 {
                    assert(s[j] == s.drop_first()[j - 1]);
                }
            }
        }
    }
}

/// The index of the first `'}'` at or after `from` in `text`, if any.
fn find_close(text: &Vec<char>, from: usize) -> (r: Option<usize>)
    requires
        from <= text@.len(),
    ensures
        match first_close(text@.skip(from as int)) {
            Some(i) => r matches Some(k) && k == from + i,
            None => r is None,
        },
        r matches Some(k) ==> from <= k < text@.len(),
{
    let mut k: usize = from;
    while k < text.len()
        invariant
            from <= k <= text@.len(),
            first_close(text@.skip(from as int)) == match first_close(text@.skip(k as int)) {
                Some(i) => Some((i + (k - from)) as nat),
                None => None,
            },
        decreases text.len() - k,
    {
        assert(text@.skip(k as int).drop_first() =~= text@.skip(k + 1));
        if text[k] == '}' {
            return Some(k);
        }
        k = k + 1;
    }
    None
}

/// The characters `text[from..to]`.
fn slice_chars(text: &Vec<char>, from: usize, to: usize) -> (out: Vec<char>)
    requires
        from <= to <= text@.len(),
    ensures
        out@ == text@.subrange(from as int, to as int),
{
    let mut out: Vec<char> = Vec::new();
    let mut k: usize = from;
    while k < to
        invariant
            from <= k <= to,
            to <= text@.len(),
            out@ == text@.subrange(from as int, k as int),
        decreases to - k,
    {
        out.push(text[k]);
        k = k + 1;
        assert(out@ =~= text@.subrange(from as int, k as int));
    }
    out
}

/// The value of `name` in the environment snapshot `env` (its first entry).
pub fn lookup_env<'a>(env: &'a [(String, String)], name: &str) -> (v: Option<&'a String>)
    ensures
        match v {
            Some(s) => env_value(env@, name@) == Some(s@),
            None => env_value(env@, name@) is None,
        },
{
    let mut i: usize = 0;
    assert(env@.skip(0) =~= env@);
    while i < env.len()
        invariant
            i <= env@.len(),
            env_value(env@, name@) == env_value(env@.skip(i as int), name@),
        decreases env.len() - i,
    {
        assert(env@.skip(i as int).drop_first() =~= env@.skip(i + 1));
        if str_equal(env[i].0.as_str(), name) {
            return Some(&env[i].1);
        }
        i = i + 1;
    }
    None
}

proof fn lemma_placeholder_step(text: Seq<char>, i: int, close: int)
    requires
        0 <= i,
        i + 2 <= close < text.len(),
        text[i] == '$',
        text[i + 1] == '{',
        first_close(text.skip(i + 2)) == Some((close - (i + 2)) as nat),
    ensures
        placeholder_at(text.skip(i)),
        placeholder_name(text.skip(i)) == text.subrange(i + 2, close),
        text.skip(i).skip(placeholder_len(text.skip(i))) == text.skip(close + 1),
{
    assert(text.skip(i).skip(2) =~= text.skip(i + 2));
    assert(text.skip(i).subrange(2, 2 + close - (i + 2)) =~= text.subrange(i + 2, close));
    assert(text.skip(i).skip(3 + close - (i + 2)) =~= text.skip(close + 1));
}

proof fn lemma_plain_step(text: Seq<char>, i: int)
    requires
        0 <= i < text.len(),
    ensures
        text.skip(i).drop_first() == text.skip(i + 1),
        text.skip(i)[0] == text[i],
{
    assert(text.skip(i).drop_first() =~= text.skip(i + 1));
}

/// `input` with each `${NAME}` placeholder replaced by the value of `NAME` in
/// the environment snapshot `env`, or the name of the first placeholder whose
/// variable is missing or empty there.
pub fn substitute_env_vars_from(input: &str, env: &[(String, String)]) -> (r: Result<String, String>)
    ensures
        match r {
            Ok(s) => substituted(input@, env@) == Ok::<Seq<char>, Seq<char>>(s@),
            Err(name) => substituted(input@, env@) == Err::<Seq<char>, Seq<char>>(name@),
        },
{
    let text = chars_of(input);
    let mut out = String::new();
    let mut i: usize = 0;
    assert(text@.skip(0) =~= text@);
    assert(out@ =~= Seq::<char>::empty());
    assert(prepend(out@, substituted(text@, env@)) =~= substituted(text@, env@)) by {
        match substituted(text@, env@) {
            Ok(t) => { assert(out@ + t =~= t); },
            Err(_) => {},
        }
    }
    while i < text.len()
        invariant
            i <= text@.len(),
            text@ == input@,
            substituted(input@, env@) == prepend(out@, substituted(text@.skip(i as int), env@)),
        decreases text.len() - i,
    {
        let ghost rest = text@.skip(i as int);
        let mut placeholder: Option<(usize, Vec<char>)> = None;
        if i + 1 < text.len() && text[i] == '$' && text[i + 1] == '{' {
            match find_close(&text, i + 2) {
                Some(close) => {
                    proof { lemma_placeholder_step(text@, i as int, close as int); }
                    placeholder = Some((close, slice_chars(&text, i + 2, close)));
                },
                None => {},
            }
        }
        match placeholder {
            Some((close, name_chars)) => {
                let name = string_of_chars(&name_chars);
                proof { lemma_first_close_bound(rest.skip(2)); }
                match lookup_env(env, name.as_str()) {
                    Some(value) => {
                        if value.unicode_len() == 0 {
                            return Err(name);
                        }
                        let ghost before = out@;
                        push_str(&mut out, value.as_str());
                        proof {
                            match substituted(text@.skip(close + 1), env@) {
                                Ok(t) => { assert(before + (value@ + t) =~= out@ + t); },
                                Err(_) => {},
                            }
                        }
                        i = close + 1;
                    },
                    None => {
                        return Err(name);
                    },
                }
            },
            None => {
                proof {
                    lemma_plain_step(text@, i as int);
                    if i + 1 < text.len() && text@[i as int] == '$' && text@[i + 1] == '{' {
                        assert(rest.skip(2) =~= text@.skip(i + 2));
                    }
                    assert(!placeholder_at(rest));
                }
                let ghost before = out@;
                let c = text[i];
                push_str(&mut out, char_string(c).as_str());
                proof {
                    match substituted(text@.skip(i + 1), env@) {
                        Ok(t) => { assert(before + (seq![c] + t) =~= out@ + t); },
                        Err(_) => {},
                    }
                }
                i = i + 1;
            },
        }
    }
    assert(text@.skip(i as int).len() == 0);
    proof {
        assert(out@ + Seq::<char>::empty() =~= out@);
    }
    Ok(out)
}

fn char_string(c: char) -> (s: String)
    ensures
        s@ == seq![c],
{
    let v: Vec<char> = vec![c];
    let s = string_of_chars(&v);
    assert(v@ =~= seq![c]);
    s
}

/// The placeholder names of `input`, left to right: the environment variables
/// a substitution reads.
pub fn env_placeholder_names(input: &str) -> (names: Vec<String>)
    ensures
        names@.map_values(|n: String| n@) == placeholder_names(input@),
{
    let text = chars_of(input);
    let mut names: Vec<String> = Vec::new();
    let mut i: usize = 0;
    assert(text@.skip(0) =~= text@);
    assert(names@.map_values(|n: String| n@) + placeholder_names(text@) =~= placeholder_names(text@));
    while i < text.len()
        invariant
            i <= text@.len(),
            text@ == input@,
            placeholder_names(input@) == names@.map_values(|n: String| n@) + placeholder_names(text@.skip(i as int)),
        decreases text.len() - i,
    {
        let ghost rest = text@.skip(i as int);
        let mut close_at: Option<usize> = None;
        if i + 1 < text.len() && text[i] == '$' && text[i + 1] == '{' {
            close_at = find_close(&text, i + 2);
            match close_at {
                Some(close) => {
                    proof { lemma_placeholder_step(text@, i as int, close as int); }
                },
                None => {},
            }
        }
        match close_at {
            Some(close) => {
                let name = string_of_chars(&slice_chars(&text, i + 2, close));
                let ghost before = names@.map_values(|n: String| n@);
                let ghost nv = name@;
                names.push(name);
                proof {
                    assert(names@.map_values(|n: String| n@) =~= before.push(nv));
                    lemma_first_close_bound(rest.skip(2));
                    assert(before + (seq![nv] + placeholder_names(text@.skip(close + 1)))
                        =~= before.push(nv) + placeholder_names(text@.skip(close + 1)));
                }
                i = close + 1;
            },
            None => {
                proof {
                    lemma_plain_step(text@, i as int);
                    if i + 1 < text.len() && text@[i as int] == '$' && text@[i + 1] == '{' {
                        assert(rest.skip(2) =~= text@.skip(i + 2));
                    }
                    assert(!placeholder_at(rest));
                }
                i = i + 1;
            },
        }
    }
    assert(text@.skip(i as int).len() == 0);
    assert(names@.map_values(|n: String| n@) + Seq::<Seq<char>>::empty() =~= names@.map_values(|n: String| n@));
    names
}

/// The error text for a placeholder whose variable is missing or empty.
pub fn missing_env_var_message(name: &str) -> (m: String)
    ensures
        m@ == "Missing or empty environment variable: "@ + name@,
{
    let mut m = string_from("Missing or empty environment variable: ");
    push_str(&mut m, name);
    m
}

/// A lone placeholder whose variable has a nonempty value is replaced by that
/// value, and one whose variable is missing or empty is reported by its name.
pub proof fn lemma_lone_placeholder_is_its_value(name: Seq<char>, env: Seq<(String, String)>)
    requires
        forall|i: int| 0 <= i < name.len() ==> name[i] != '}',
    ensures
        env_value(env, name) matches Some(v) && v.len() > 0
            ==> substituted("${"@ + name + "}"@, env) == Ok::<Seq<char>, Seq<char>>(env_value(env, name)->0),
        !(env_value(env, name) matches Some(v) && v.len() > 0)
            ==> substituted("${"@ + name + "}"@, env) == Err::<Seq<char>, Seq<char>>(name),
{
    reveal_strlit("${");
    reveal_strlit("}");
    assert("${"@ =~= seq!['$', '{']);
    assert("}"@ =~= seq!['}']);
    let s = "${"@ + name + "}"@;
    assert(s[0] == '$' && s[1] == '{');
    assert(s.skip(2) =~= name + seq!['}']);
    lemma_first_close_at_end(name);
    assert(placeholder_at(s));
    assert(placeholder_name(s) =~= name);
    assert(s.skip(placeholder_len(s)) =~= Seq::<char>::empty());
    assert(substituted(Seq::<char>::empty(), env) == Ok::<Seq<char>, Seq<char>>(Seq::empty()));
    if let Some(v) = env_value(env, name) {
        if v.len() > 0 {
            assert(substituted(s, env) == prepend(v, substituted(s.skip(placeholder_len(s)), env)));
            assert(v + Seq::<char>::empty() =~= v);
        }
    }
}

proof fn lemma_first_close_at_end(name: Seq<char>)
    requires
        forall|i: int| 0 <= i < name.len() ==> name[i] != '}',
    ensures
        first_close(name + seq!['}']) == Some(name.len()),
    decreases name.len(),
{
    if name.len() == 0 {
        assert((name + seq!['}'])[0] == '}');
    } else {
        assert((name + seq!['}']).drop_first() =~= name.drop_first() + seq!['}']);
        assert((name + seq!['}'])[0] == name[0]);
        lemma_first_close_at_end(name.drop_first());
    }
}

} // verus!
