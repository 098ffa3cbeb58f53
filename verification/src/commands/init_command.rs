//! The decisions of `nucleus init`: the framework menu, the directory name
//! derived from the project name, and the rendering of template files.

use vstd::prelude::*;
use crate::text::{
    contains_seq, lowercase_of, occurs_at, replace_all, replace_str, to_lowercase, trim, trim_str,
    lemma_match_count_positive, lemma_replace_all_no_match, match_count,
};

verus! {

/// The front-end framework a new project is scaffolded with.
#[derive(Clone, Copy, Debug, PartialEq, Eq, Structural)]
pub enum Framework {
    Next,
    NoFramework,
}

/// The framework chosen by menu index `i`: the first entry is Next.js,
/// every other index means no framework.
pub open spec fn framework_at(i: int) -> Framework {
    if i == 0 {
        Framework::Next
    } else {
        Framework::NoFramework
    }
}

/// The menu label of a framework.
pub open spec fn framework_label(f: Framework) -> Seq<char> {
    match f {
        Framework::Next => "Next.js"@,
        Framework::NoFramework => "None"@,
    }
}

impl Framework {
    /// The menu entries, in order.
    pub fn variants() -> (v: Vec<&'static str>)
        ensures
            v@.len() == 2,
            v@[0]@ == "Next.js"@,
            v@[1]@ == "None"@,
    {
        let mut v: Vec<&'static str> = Vec::new();
        v.push("Next.js");
        v.push("None");
        v
    }

    /// The framework chosen by menu index `i`.
    pub fn from_index(i: usize) -> (f: Self)
        ensures
            f == framework_at(i as int),
    {
        match i {
            0 => Framework::Next,
            1 => Framework::NoFramework,
            _ => Framework::NoFramework,
        }
    }
}

/// Choosing a menu entry gives the framework that the entry is labelled with.
pub proof fn lemma_menu_labels(i: int)
    requires
        0 <= i < 2,
    ensures
        framework_label(framework_at(i)) == seq!["Next.js"@, "None"@][i],
{
}

/// The text a template variable named `key` is written as: `{{key}}`.
pub open spec fn placeholder(key: Seq<char>) -> Seq<char> {
    "{{"@ + key + "}}"@
}

/// `template` with the variables substituted one after the other, in the
/// order given: every `{{key}}` of the first variable, then of the second,
/// and so on.
pub open spec fn rendered(template: Seq<char>, vars: Seq<(String, String)>) -> Seq<char>
    decreases vars.len(),
{
    if vars.len() == 0 {
        template
    } else {
        rendered(replace_all(template, placeholder(vars[0].0@), vars[0].1@), vars.skip(1))
    }
}

/// Renders a template file with the given variables.
pub fn render(template: &str, vars: &Vec<(String, String)>) -> (out: String)
    ensures
        out@ == rendered(template@, vars@),
{
    let mut cur = template.to_owned();
    let mut i: usize = 0;
    assert(vars@.skip(0) =~= vars@);
    while i < vars.len()
        invariant
            i <= vars@.len(),
            rendered(template@, vars@) == rendered(cur@, vars@.skip(i as int)),
        decreases vars@.len() - i,
    {
        let mut key: Vec<char> = Vec::new();
        crate::text::push_str_chars(&mut key, "{{");
        crate::text::push_str_chars(&mut key, &vars[i].0);
        crate::text::push_str_chars(&mut key, "}}");
        let pattern = crate::text::string_of(&key);
        proof {
            reveal_strlit("{{");
        }
        assert(pattern@ == placeholder(vars@[i as int].0@));
        assert(vars@.skip(i as int).skip(1) =~= vars@.skip(i + 1));
        cur = replace_str(&cur, &pattern, &vars[i].1);
        i = i + 1;
    }
    assert(vars@.skip(i as int) =~= Seq::<(String, String)>::empty());
    cur
}

/// A template in which `{{` never occurs is rendered unchanged, whatever
/// the variables.
pub proof fn lemma_render_plain_text(template: Seq<char>, vars: Seq<(String, String)>)
    requires
        !contains_seq(template, "{{"@),
    ensures
        rendered(template, vars) == template,
    decreases vars.len(),
{
    if vars.len() > 0 {
        let p = placeholder(vars[0].0@);
        reveal_strlit("{{");
        assert(p.len() > 0);
        lemma_match_count_positive(template, p);
        if match_count(template, p) > 0 {
            let i = choose|i: int| occurs_at(template, i, p);
            assert(template.subrange(i, i + 2) =~= p.subrange(0, 2));
            assert(p.subrange(0, 2) =~= "{{"@);
            assert(occurs_at(template, i, "{{"@));
        }
        lemma_replace_all_no_match(template, p, vars[0].1@);
        lemma_render_plain_text(template, vars.skip(1));
    }
}

/// The directory name for a project: the name trimmed, lower-cased, and
/// with each space turned into `-`.
pub open spec fn project_dir_name_of(name: Seq<char>) -> Seq<char> {
    replace_all(lowercase_of(trim(name)), " "@, "-"@)
}

/// The directory name for an already trimmed and lower-cased project name.
pub fn dir_name_from_lowercase(lowered: &str) -> (d: String)
    ensures
        d@ == replace_all(lowered@, " "@, "-"@),
{
    proof {
        reveal_strlit(" ");
    }
    replace_str(lowered, " ", "-")
}

/// The directory that `nucleus init <name>` creates the project in.
pub fn project_dir_name(name: &str) -> (d: String)
    ensures
        d@ == project_dir_name_of(name@),
{
    let trimmed = trim_str(name);
    let lowered = to_lowercase(&trimmed);
    dir_name_from_lowercase(&lowered)
}

/// Turning spaces into `-` leaves no space behind.
pub proof fn lemma_no_space_after_dashing(s: Seq<char>)
    ensures
        forall|k: int|
            0 <= k < replace_all(s, " "@, "-"@).len() ==> #[trigger] replace_all(s, " "@, "-"@)[k]
                != ' ',
    decreases s.len(),
{
    reveal_strlit(" ");
    reveal_strlit("-");
    let r = replace_all(s, " "@, "-"@);
    if s.len() == 0 {
    } else if s.take(1) == " "@ {
        lemma_no_space_after_dashing(s.skip(1));
        assert(r == "-"@ + replace_all(s.skip(1), " "@, "-"@));
    } else {
        lemma_no_space_after_dashing(s.skip(1));
        assert(s[0] != ' ') by {
            if s[0] == ' ' {
                assert(s.take(1) =~= " "@);
            }
        }
        assert(r == seq![s[0]] + replace_all(s.skip(1), " "@, "-"@));
    }
}

/// A project directory name holds no space.
pub proof fn lemma_project_dir_name_has_no_space(name: Seq<char>)
    ensures
        !contains_seq(project_dir_name_of(name), " "@),
{
    let d = project_dir_name_of(name);
    lemma_no_space_after_dashing(lowercase_of(trim(name)));
    reveal_strlit(" ");
    if contains_seq(d, " "@) {
        let i = choose|i: int| occurs_at(d, i, " "@);
        assert(d.subrange(i, i + 1)[0] == d[i]);
    }
}

/// Turning spaces into `-` changes nothing else: the result is exactly as
/// long as the text, and each character is the text's own, with a space
/// turned into `-`.
pub proof fn lemma_dashing_pointwise(s: Seq<char>)
    ensures
        replace_all(s, " "@, "-"@).len() == s.len(),
        forall|k: int|
            0 <= k < s.len() ==> #[trigger] replace_all(s, " "@, "-"@)[k] == (if s[k] == ' ' {
                '-'
            } else {
                s[k]
            }),
    decreases s.len(),
{
    reveal_strlit(" ");
    reveal_strlit("-");
    let r = replace_all(s, " "@, "-"@);
    if s.len() > 0 {
        let t = s.skip(1);
        lemma_dashing_pointwise(t);
        let rt = replace_all(t, " "@, "-"@);
        if s.take(1) == " "@ {
            assert(s[0] == ' ') by {
                assert(s.take(1)[0] == s[0]);
            }
            assert(r == "-"@ + rt);
        } else {
            assert(s[0] != ' ') by {
                if s[0] == ' ' {
                    assert(s.take(1) =~= " "@);
                }
            }
            assert(r == seq![s[0]] + rt);
        }
        assert forall|k: int| 0 <= k < s.len() implies #[trigger] r[k] == (if s[k] == ' ' {
            '-'
        } else {
            s[k]
        }) by {
            if k > 0 {
                assert(r[k] == rt[k - 1]);
                assert(t[k - 1] == s[k]);
            }
        }
    }
}

/// The directory name keeps the whole trimmed, lower-cased name: it is as
/// long as that name and differs from it only where a space became `-`.
pub proof fn lemma_project_dir_name_keeps_name(name: Seq<char>)
    ensures
        project_dir_name_of(name).len() == lowercase_of(trim(name)).len(),
        forall|k: int|
            0 <= k < lowercase_of(trim(name)).len() ==> #[trigger] project_dir_name_of(name)[k] == (
            if lowercase_of(trim(name))[k] == ' ' {
                '-'
            } else {
                lowercase_of(trim(name))[k]
            }),
{
    lemma_dashing_pointwise(lowercase_of(trim(name)));
}

/// Rendering with one variable `key` replaces every `{{key}}` by its value.
pub proof fn lemma_render_one(template: Seq<char>, key: String, value: String)
    ensures
        rendered(template, seq![(key, value)]) == replace_all(
            template,
            "{{"@ + key@ + "}}"@,
            value@,
        ),
{
    let vars = seq![(key, value)];
    let once = replace_all(template, placeholder(key@), value@);
    assert(vars.skip(1) =~= Seq::<(String, String)>::empty());
    assert(rendered(once, vars.skip(1)) == once);
    assert(rendered(template, vars) == rendered(once, vars.skip(1)));
}

/// Substitutions accumulate: rendering with the variables `a` followed by
/// `b` is rendering with `a`, then rendering that result with `b`.
pub proof fn lemma_render_in_sequence(
    template: Seq<char>,
    a: Seq<(String, String)>,
    b: Seq<(String, String)>,
)
    ensures
        rendered(template, a + b) == rendered(rendered(template, a), b),
    decreases a.len(),
{
    if a.len() == 0 {
        assert(a + b =~= b);
    } else {
        let first = replace_all(template, placeholder(a[0].0@), a[0].1@);
        assert((a + b)[0] == a[0]);
        assert((a + b).skip(1) =~= a.skip(1) + b);
        lemma_render_in_sequence(first, a.skip(1), b);
    }
}

/// The variables a template file is rendered with: the project name.
pub fn init_template_vars(name: &str) -> (vars: Vec<(String, String)>)
    ensures
        vars@.len() == 1,
        vars@[0].0@ == "name"@,
        vars@[0].1@ == name@,
{
    let mut vars: Vec<(String, String)> = Vec::new();
    vars.push(("name".to_owned(), name.to_owned()));
    vars
}

} // verus!
