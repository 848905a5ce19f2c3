//! The regular expressions that find where a symbol is defined.
use vstd::prelude::*;

use crate::text::{
    chars_of, join, joined, law_joined_texts_are_all_there,
    law_joined_texts_are_as_long_as_together, same_text, total_len, views,
};

verus! {

/// The characters that mean something of their own in a regular expression.
pub open spec fn special(c: char) -> bool {
    c == '\\' || c == '.' || c == '+' || c == '*' || c == '?' || c == '(' || c == ')' || c == '|'
        || c == '[' || c == ']' || c == '{' || c == '}' || c == '^' || c == '$'
}

/// The pattern that matches the character itself.
pub open spec fn escaped_char(c: char) -> Seq<char> {
    if special(c) {
        seq!['\\', c]
    } else {
        seq![c]
    }
}

/// The pattern that matches the text itself: each special character behind a backslash.
pub open spec fn escaped(s: Seq<char>) -> Seq<char>
    decreases s.len(),
{
    if s.len() == 0 {
        seq![]
    } else {
        escaped(s.drop_last()) + escaped_char(s.last())
    }
}

/// The pattern that matches the text itself.
pub fn escape_regex(s: &str) -> (pattern: String)
    ensures
        pattern@ == escaped(s@),
{
    let chars = chars_of(s);
    let mut out = String::new();
    let mut i: usize = 0;
    while i < chars.len()
        invariant
            chars@ == s@,
            i <= chars.len(),
            out@ == escaped(s@.take(i as int)),
        decreases chars.len() - i,
    {
        let c = chars[i];
        if matches!(
            c,
            '\\' | '.' | '+' | '*' | '?' | '(' | ')' | '|' | '[' | ']' | '{' | '}' | '^' | '$'
        ) {
            out.push('\\');
        }
        out.push(c);
        assert(s@.take(i + 1).drop_last() == s@.take(i as int));
        i = i + 1;
        assert(out@ =~= escaped(s@.take(i as int)));
    }
    assert(s@.take(i as int) == s@);
    out
}

/// `before`, the pattern for `name` itself, `after`.
pub open spec fn around(before: Seq<char>, name: Seq<char>, after: Seq<char>) -> Seq<char> {
    before + escaped(name) + after
}

/// The patterns that find the definition of `name`, by the kind of symbol that it is.
pub open spec fn symbol_patterns_spec(name: Seq<char>, kind: Seq<char>) -> Seq<Seq<char>> {
    let function = around("(fn|function|def|func)\\s+"@, name, ""@);
    let bound = around("(const|let|var)\\s+"@, name, "\\s*=\\s*(async\\s+)?\\("@);
    if kind == "function"@ {
        seq![function, bound]
    } else if kind == "type"@ {
        seq![around("(type|struct|enum|interface|typedef)\\s+"@, name, ""@)]
    } else if kind == "class"@ {
        seq![around("(class|struct)\\s+"@, name, ""@)]
    } else if kind == "method"@ {
        seq![
            around("(fn|def|func|function)\\s+"@, name, ""@),
            around("\\."@, name, "\\s*=\\s*function"@),
        ]
    } else {
        seq![
            function,
            bound,
            around("(type|struct|enum|interface|class|trait|typedef)\\s+"@, name, ""@),
            around("(pub\\s+)?(mod|module)\\s+"@, name, ""@),
        ]
    }
}

/// `before`, the pattern for `name` itself, `after`.
fn pattern_around(before: &str, name: &str, after: &str) -> (pattern: String)
    ensures
        pattern@ == around(before@, name@, after@),
{
    let mut pattern = before.to_owned();
    pattern.append(escape_regex(name).as_str());
    pattern.append(after);
    pattern
}

/// The patterns that find the definition of `name` (see [`symbol_patterns_spec`]).
pub fn symbol_patterns(name: &str, kind: &str) -> (patterns: Vec<String>)
    ensures
        views(patterns@) == symbol_patterns_spec(name@, kind@),
{
    let mut patterns: Vec<String> = Vec::new();
    if same_text(kind, "function") {
        patterns.push(pattern_around("(fn|function|def|func)\\s+", name, ""));
        patterns.push(pattern_around("(const|let|var)\\s+", name, "\\s*=\\s*(async\\s+)?\\("));
    } else if same_text(kind, "type") {
        patterns.push(pattern_around("(type|struct|enum|interface|typedef)\\s+", name, ""));
    } else if same_text(kind, "class") {
        patterns.push(pattern_around("(class|struct)\\s+", name, ""));
    } else if same_text(kind, "method") {
        patterns.push(pattern_around("(fn|def|func|function)\\s+", name, ""));
        patterns.push(pattern_around("\\.", name, "\\s*=\\s*function"));
    } else {
        patterns.push(pattern_around("(fn|function|def|func)\\s+", name, ""));
        patterns.push(pattern_around("(const|let|var)\\s+", name, "\\s*=\\s*(async\\s+)?\\("));
        patterns.push(
            pattern_around("(type|struct|enum|interface|class|trait|typedef)\\s+", name, ""),
        );
        patterns.push(pattern_around("(pub\\s+)?(mod|module)\\s+", name, ""));
    }
    assert(views(patterns@) =~= symbol_patterns_spec(name@, kind@));
    patterns
}

/// The one pattern that finds what any of the patterns for `name` finds.
pub open spec fn symbol_pattern_spec(name: Seq<char>, kind: Seq<char>) -> Seq<char> {
    joined(symbol_patterns_spec(name, kind), "|"@)
}

/// The one pattern that finds what any of the patterns for `name` finds.
pub fn symbol_pattern(name: &str, kind: &str) -> (pattern: String)
    ensures
        pattern@ == symbol_pattern_spec(name@, kind@),
{
    let patterns = symbol_patterns(name, kind);
    join(&patterns, "|")
}

// ---- Laws ----

/// What a pattern reads as when a backslash gives the next character for itself.
pub open spec fn unescaped(p: Seq<char>) -> Seq<char>
    decreases p.len(),
{
    if p.len() == 0 {
        seq![]
    } else if p[0] == '\\' && p.len() > 1 {
        seq![p[1]] + unescaped(p.skip(2))
    } else {
        seq![p[0]] + unescaped(p.skip(1))
    }
}

/// Whether a pattern is made of ordinary characters and of special ones behind a backslash, so
/// that it matches one text only.
pub open spec fn literal(p: Seq<char>) -> bool
    decreases p.len(),
{
    if p.len() == 0 {
        true
    } else if p[0] == '\\' {
        p.len() > 1 && special(p[1]) && literal(p.skip(2))
    } else {
        !special(p[0]) && literal(p.skip(1))
    }
}

/// The escaped form of two texts in a row is their escaped forms in a row.
pub proof fn law_escape_is_piecewise(a: Seq<char>, b: Seq<char>)
    ensures
        escaped(a + b) == escaped(a) + escaped(b),
    decreases b.len(),
{
    if b.len() == 0 {
        assert(a + b == a);
        assert(escaped(a + b) =~= escaped(a) + escaped(b));
    } else {
        law_escape_is_piecewise(a, b.drop_last());
        assert((a + b).drop_last() == a + b.drop_last());
        assert(escaped(a + b) =~= escaped(a) + escaped(b));
    }
}

/// The escaped form of a text matches literally and stands for that text.
pub proof fn law_escape_matches_the_text_itself(s: Seq<char>)
    ensures
        literal(escaped(s)),
        unescaped(escaped(s)) == s,
    decreases s.len(),
{
    if s.len() > 0 {
        let head = seq![s[0]];
        let tail = s.skip(1);
        assert(s == head + tail);
        law_escape_is_piecewise(head, tail);
        law_escape_matches_the_text_itself(tail);
        assert(escaped(head.drop_last()) == Seq::<char>::empty());
        assert(escaped(head) =~= escaped_char(s[0]));
        let p = escaped(s);
        if special(s[0]) {
            assert(p.skip(2) =~= escaped(tail));
        } else {
            assert(p.skip(1) =~= escaped(tail));
        }
        assert(unescaped(p) =~= s);
    } else {
        assert(unescaped(escaped(s)) =~= s);
    }
}

/// Two texts with the same escaped form are the same text.
pub proof fn law_escape_tells_texts_apart(a: Seq<char>, b: Seq<char>)
    requires
        escaped(a) == escaped(b),
    ensures
        a == b,
{
    law_escape_matches_the_text_itself(a);
    law_escape_matches_the_text_itself(b);
}

/// Where the kind is none of those with patterns of their own, the search looks for all that it
/// would look for among functions, and for more.
pub proof fn law_unknown_kind_includes_functions(name: Seq<char>, kind: Seq<char>)
    requires
        kind != "type"@,
        kind != "class"@,
        kind != "method"@,
    ensures
        symbol_patterns_spec(name, "function"@).is_prefix_of(symbol_patterns_spec(name, kind)),
{
}

/// Every pattern holds the escaped name.
pub proof fn law_patterns_hold_the_name(name: Seq<char>, kind: Seq<char>, i: int)
    requires
        0 <= i < symbol_patterns_spec(name, kind).len(),
    ensures
        exists|before: Seq<char>, after: Seq<char>|
            symbol_patterns_spec(name, kind)[i] == #[trigger] around(before, name, after),
{
}

/// Escaping goes character by character: it puts a backslash before each of the characters that a
/// regular expression gives a meaning, and leaves every other as it is.
pub proof fn law_escape_goes_by_characters(a: Seq<char>, b: Seq<char>, c: char)
    ensures
        escaped(seq![]) == Seq::<char>::empty(),
        escaped(seq![c]) == (if "\\.+*?()|[]{}^$"@.contains(c) {
            seq!['\\', c]
        } else {
            seq![c]
        }),
        escaped(a + b) == escaped(a) + escaped(b),
{
    law_escape_is_piecewise(a, b);
    assert(seq![c].drop_last() =~= Seq::<char>::empty());
    assert(escaped(seq![c].drop_last()) == Seq::<char>::empty());
    assert(escaped(seq![c]) =~= escaped_char(c));
    reveal_strlit("\\.+*?()|[]{}^$");
    let all = "\\.+*?()|[]{}^$"@;
    if special(c) {
        assert(all[0] == '\\' && all[1] == '.' && all[2] == '+' && all[3] == '*' && all[4] == '?');
        assert(all[5] == '(' && all[6] == ')' && all[7] == '|' && all[8] == '[' && all[9] == ']');
        assert(all[10] == '{' && all[11] == '}' && all[12] == '^' && all[13] == '$');
        assert(all.contains(c));
    }
}

/// The pattern for any of the words, with white space behind it.
pub open spec fn any_of(words: Seq<Seq<char>>) -> Seq<char> {
    "("@ + joined(words, "|"@) + ")\\s+"@
}

/// What is looked for, by the kind of symbol: the name, with each special character behind a
/// backslash, after any of the words that such a definition begins with, or where it is bound to a
/// function. A kind that has no words of its own is looked for among all of them.
pub proof fn law_patterns_look_for_definitions(name: Seq<char>, kind: Seq<char>)
    ensures
        ({
            let patterns = symbol_patterns_spec(name, kind);
            let n = escaped(name);
            let functions = any_of(seq!["fn"@, "function"@, "def"@, "func"@]) + n;
            let bindings = any_of(seq!["const"@, "let"@, "var"@]) + n
                + "\\s*=\\s*(async\\s+)?\\("@;
            &&& kind == "function"@ ==> patterns == seq![functions, bindings]
            &&& kind == "type"@ ==> patterns == seq![
                any_of(seq!["type"@, "struct"@, "enum"@, "interface"@, "typedef"@]) + n,
            ]
            &&& kind == "class"@ ==> patterns == seq![any_of(seq!["class"@, "struct"@]) + n]
            &&& kind == "method"@ ==> patterns == seq![
                any_of(seq!["fn"@, "def"@, "func"@, "function"@]) + n,
                "\\."@ + n + "\\s*=\\s*function"@,
            ]
            &&& kind != "function"@ && kind != "type"@ && kind != "class"@ && kind != "method"@
                ==> patterns == seq![
                functions,
                bindings,
                any_of(
                    seq![
                        "type"@,
                        "struct"@,
                        "enum"@,
                        "interface"@,
                        "class"@,
                        "trait"@,
                        "typedef"@,
                    ],
                ) + n,
                "(pub\\s+)?"@ + any_of(seq!["mod"@, "module"@]) + n,
            ]
        }),
{
    let n = escaped(name);
    lemma_groups();
    reveal_strlit("");
    reveal_strlit("function");
    reveal_strlit("type");
    reveal_strlit("class");
    reveal_strlit("method");
    assert("function"@.len() != "type"@.len() && "function"@.len() != "class"@.len());
    assert("function"@.len() != "method"@.len() && "type"@.len() != "class"@.len());
    assert("type"@.len() != "method"@.len() && "class"@.len() != "method"@.len());
    assert(around("(fn|function|def|func)\\s+"@, name, ""@) =~= "(fn|function|def|func)\\s+"@ + n);
    assert(around("(type|struct|enum|interface|typedef)\\s+"@, name, ""@)
        =~= "(type|struct|enum|interface|typedef)\\s+"@ + n);
    assert(around("(class|struct)\\s+"@, name, ""@) =~= "(class|struct)\\s+"@ + n);
    assert(around("(fn|def|func|function)\\s+"@, name, ""@) =~= "(fn|def|func|function)\\s+"@ + n);
    assert(around("(type|struct|enum|interface|class|trait|typedef)\\s+"@, name, ""@)
        =~= "(type|struct|enum|interface|class|trait|typedef)\\s+"@ + n);
    assert(around("(pub\\s+)?(mod|module)\\s+"@, name, ""@) =~= "(pub\\s+)?(mod|module)\\s+"@ + n);
}

proof fn lemma_groups()
    ensures
        any_of(seq!["fn"@, "function"@, "def"@, "func"@]) == "(fn|function|def|func)\\s+"@,
        any_of(seq!["fn"@, "def"@, "func"@, "function"@]) == "(fn|def|func|function)\\s+"@,
        any_of(seq!["const"@, "let"@, "var"@]) == "(const|let|var)\\s+"@,
        any_of(seq!["class"@, "struct"@]) == "(class|struct)\\s+"@,
        any_of(seq!["type"@, "struct"@, "enum"@, "interface"@, "typedef"@])
            == "(type|struct|enum|interface|typedef)\\s+"@,
        any_of(
            seq!["type"@, "struct"@, "enum"@, "interface"@, "class"@, "trait"@, "typedef"@],
        ) == "(type|struct|enum|interface|class|trait|typedef)\\s+"@,
        "(pub\\s+)?"@ + any_of(seq!["mod"@, "module"@]) == "(pub\\s+)?(mod|module)\\s+"@,
{
    reveal_strlit("|");
    reveal_strlit("(");
    reveal_strlit(")\\s+");
    reveal_strlit("fn");
    reveal_strlit("function");
    reveal_strlit("def");
    reveal_strlit("func");
    reveal_strlit("const");
    reveal_strlit("let");
    reveal_strlit("var");
    reveal_strlit("class");
    reveal_strlit("struct");
    reveal_strlit("type");
    reveal_strlit("enum");
    reveal_strlit("interface");
    reveal_strlit("typedef");
    reveal_strlit("trait");
    reveal_strlit("mod");
    reveal_strlit("module");
    reveal_strlit("(pub\\s+)?");
    reveal_strlit("(fn|function|def|func)\\s+");
    reveal_strlit("(fn|def|func|function)\\s+");
    reveal_strlit("(const|let|var)\\s+");
    reveal_strlit("(class|struct)\\s+");
    reveal_strlit("(type|struct|enum|interface|typedef)\\s+");
    reveal_strlit("(type|struct|enum|interface|class|trait|typedef)\\s+");
    reveal_strlit("(pub\\s+)?(mod|module)\\s+");
    lemma_joined_four("fn"@, "function"@, "def"@, "func"@);
    lemma_joined_four("fn"@, "def"@, "func"@, "function"@);
    lemma_joined_three("const"@, "let"@, "var"@);
    lemma_joined_two("class"@, "struct"@);
    lemma_joined_two("mod"@, "module"@);
    lemma_joined_four("type"@, "struct"@, "enum"@, "interface"@);
    let types = seq!["type"@, "struct"@, "enum"@, "interface"@];
    lemma_joined_more(types, "typedef"@);
    assert(types.push("typedef"@) =~= seq![
        "type"@,
        "struct"@,
        "enum"@,
        "interface"@,
        "typedef"@,
    ]);
    lemma_joined_more(types, "class"@);
    lemma_joined_more(types.push("class"@), "trait"@);
    lemma_joined_more(types.push("class"@).push("trait"@), "typedef"@);
    assert(types.push("class"@).push("trait"@).push("typedef"@) =~= seq![
        "type"@,
        "struct"@,
        "enum"@,
        "interface"@,
        "class"@,
        "trait"@,
        "typedef"@,
    ]);
    assert(any_of(seq!["fn"@, "function"@, "def"@, "func"@]) =~= "(fn|function|def|func)\\s+"@);
    assert(any_of(seq!["fn"@, "def"@, "func"@, "function"@]) =~= "(fn|def|func|function)\\s+"@);
    assert(any_of(seq!["const"@, "let"@, "var"@]) =~= "(const|let|var)\\s+"@);
    assert(any_of(seq!["class"@, "struct"@]) =~= "(class|struct)\\s+"@);
    assert("(pub\\s+)?"@ + any_of(seq!["mod"@, "module"@]) =~= "(pub\\s+)?(mod|module)\\s+"@);
    assert(any_of(types.push("typedef"@)) =~= "(type|struct|enum|interface|typedef)\\s+"@);
    assert(any_of(types.push("class"@).push("trait"@).push("typedef"@))
        =~= "(type|struct|enum|interface|class|trait|typedef)\\s+"@);
}

proof fn lemma_joined_more(words: Seq<Seq<char>>, word: Seq<char>)
    requires
        words.len() > 0,
    ensures
        joined(words.push(word), "|"@) == joined(words, "|"@) + "|"@ + word,
{
    assert(words.push(word).drop_last() =~= words);
}

proof fn lemma_joined_two(a: Seq<char>, b: Seq<char>)
    ensures
        joined(seq![a, b], "|"@) == a + "|"@ + b,
{
    assert(seq![a].push(b) =~= seq![a, b]);
    lemma_joined_more(seq![a], b);
}

proof fn lemma_joined_three(a: Seq<char>, b: Seq<char>, c: Seq<char>)
    ensures
        joined(seq![a, b, c], "|"@) == a + "|"@ + b + "|"@ + c,
{
    assert(seq![a, b].push(c) =~= seq![a, b, c]);
    lemma_joined_two(a, b);
    lemma_joined_more(seq![a, b], c);
}

proof fn lemma_joined_four(a: Seq<char>, b: Seq<char>, c: Seq<char>, d: Seq<char>)
    ensures
        joined(seq![a, b, c, d], "|"@) == a + "|"@ + b + "|"@ + c + "|"@ + d,
{
    assert(seq![a, b, c].push(d) =~= seq![a, b, c, d]);
    lemma_joined_three(a, b, c);
    lemma_joined_more(seq![a, b, c], d);
}

/// The one pattern is all of the patterns for the name: each of them is an alternative of it,
/// between bars or at an end, and it holds nothing else.
pub proof fn law_one_pattern_holds_every_pattern(name: Seq<char>, kind: Seq<char>, i: int)
    requires
        0 <= i < symbol_patterns_spec(name, kind).len(),
    ensures
        exists|before: Seq<char>, after: Seq<char>|
            {
                &&& symbol_pattern_spec(name, kind) == #[trigger] (before
                    + symbol_patterns_spec(name, kind)[i] + after)
                &&& if i == 0 {
                    before.len() == 0
                } else {
                    before.len() > 0 && before.last() == '|'
                }
                &&& if i == symbol_patterns_spec(name, kind).len() - 1 {
                    after.len() == 0
                } else {
                    after.len() > 0 && after[0] == '|'
                }
            },
        symbol_pattern_spec(name, kind).len() == total_len(symbol_patterns_spec(name, kind))
            + symbol_patterns_spec(name, kind).len() - 1,
{
    let patterns = symbol_patterns_spec(name, kind);
    reveal_strlit("|");
    law_joined_texts_are_all_there(patterns, "|"@, i);
    law_joined_texts_are_as_long_as_together(patterns, "|"@);
    let (before, after) = choose|before: Seq<char>, after: Seq<char>|
        {
            &&& joined(patterns, "|"@) == #[trigger] (before + patterns[i] + after)
            &&& if i == 0 {
                before.len() == 0
            } else {
                "|"@.is_suffix_of(before)
            }
            &&& if i == patterns.len() - 1 {
                after.len() == 0
            } else {
                "|"@.is_prefix_of(after)
            }
        };
    assert(symbol_pattern_spec(name, kind) == before + patterns[i] + after);
    if i > 0 {
        assert(before.skip(before.len() - 1)[0] == "|"@[0]);
        assert(before.last() == '|');
    }
    if i < patterns.len() - 1 {
        assert(after.take(1)[0] == "|"@[0]);
        assert(after[0] == '|');
    }
}

/// The one pattern, by the kind of symbol: the patterns of that kind with a bar between each two.
pub proof fn law_one_pattern_by_kind(name: Seq<char>, kind: Seq<char>)
    ensures
        ({
            let patterns = symbol_patterns_spec(name, kind);
            let whole = symbol_pattern_spec(name, kind);
            &&& kind == "type"@ || kind == "class"@ ==> whole == patterns[0]
            &&& kind == "function"@ || kind == "method"@ ==> whole == patterns[0] + "|"@
                + patterns[1]
            &&& kind != "function"@ && kind != "type"@ && kind != "class"@ && kind != "method"@
                ==> whole == patterns[0] + "|"@ + patterns[1] + "|"@ + patterns[2] + "|"@
                + patterns[3]
        }),
{
    let patterns = symbol_patterns_spec(name, kind);
    reveal_strlit("function");
    reveal_strlit("type");
    reveal_strlit("class");
    reveal_strlit("method");
    assert("function"@.len() != "type"@.len() && "function"@.len() != "class"@.len());
    assert("type"@.len() != "method"@.len() && "class"@.len() != "method"@.len());
    if patterns.len() == 2 {
        assert(patterns =~= seq![patterns[0], patterns[1]]);
        lemma_joined_two(patterns[0], patterns[1]);
    }
    if patterns.len() == 4 {
        assert(patterns =~= seq![patterns[0], patterns[1], patterns[2], patterns[3]]);
        lemma_joined_four(patterns[0], patterns[1], patterns[2], patterns[3]);
    }
}

} // verus!
