//! Scaffolding a Next.js front end: the `create-next-app` invocation and the
//! patch that switches `next.config.ts` to a static export.

use vstd::prelude::*;
use crate::text::{
    contains_seq, lemma_replace_all_idempotent, no_overlap, occurs_at, lemma_match_count_positive, lemma_replace_all_len, lemma_replace_all_no_match,
    match_count, replace_all, replace_str,
};

verus! {

/// The arguments given to `npx` to create the `frontend` app.
pub fn create_next_app_args() -> (args: Vec<&'static str>)
    ensures
        args@.len() == 11,
        args@[0]@ == "create-next-app@latest"@,
        args@[1]@ == "frontend"@,
        args@[2]@ == "--ts"@,
        args@[3]@ == "--tailwind"@,
        args@[4]@ == "--eslint"@,
        args@[5]@ == "--disable-git"@,
        args@[6]@ == "--app"@,
        args@[7]@ == "--no-src-dir"@,
        args@[8]@ == "--import-alias"@,
        args@[9]@ == "@/*"@,
        args@[10]@ == "--yes"@,
{
    let mut a: Vec<&'static str> = Vec::new();
    a.push("create-next-app@latest");
    a.push("frontend");
    a.push("--ts");
    a.push("--tailwind");
    a.push("--eslint");
    a.push("--disable-git");
    a.push("--app");
    a.push("--no-src-dir");
    a.push("--import-alias");
    a.push("@/*");
    a.push("--yes");
    a
}

/// The configuration block that `create-next-app` writes.
pub open spec fn default_config_block() -> Seq<char> {
    "const nextConfig: NextConfig = {\n  /* config options here */\n};\n"@
}

/// The block it is replaced with, which asks for a static export.
pub open spec fn export_config_block() -> Seq<char> {
    "const nextConfig: NextConfig = {\n    // Nucleus: static export required for nucleus\n    output: \"export\",\n};"@
}

/// The contents of `next.config.ts` after patching: each default block
/// replaced by the static-export block.
pub fn patched_next_config(config_text: &str) -> (patched: String)
    ensures
        patched@ == replace_all(config_text@, default_config_block(), export_config_block()),
{
    proof {
        reveal_strlit("const nextConfig: NextConfig = {\n  /* config options here */\n};\n");
    }
    replace_str(
        config_text,
        "const nextConfig: NextConfig = {\n  /* config options here */\n};\n",
        "const nextConfig: NextConfig = {\n    // Nucleus: static export required for nucleus\n    output: \"export\",\n};",
    )
}

/// Patching changes the file exactly when it holds the default block; when
/// it does not, the user is told to add the export setting by hand.
pub proof fn lemma_patch_changes_iff_default_present(config_text: Seq<char>)
    ensures
        replace_all(config_text, default_config_block(), export_config_block()) == config_text
            <==> !contains_seq(config_text, default_config_block()),
{
    let p = default_config_block();
    let r = export_config_block();
    reveal_strlit("const nextConfig: NextConfig = {\n  /* config options here */\n};\n");
    reveal_strlit("const nextConfig: NextConfig = {\n    // Nucleus: static export required for nucleus\n    output: \"export\",\n};");
    assert(p.len() == 64);
    assert(r.len() == 108);
    lemma_match_count_positive(config_text, p);
    lemma_replace_all_len(config_text, p, r);
    if match_count(config_text, p) == 0 {
        lemma_replace_all_no_match(config_text, p, r);
    } else {
        assert(match_count(config_text, p) * 44 >= 44) by (nonlinear_arith)
            requires
                match_count(config_text, p) >= 1,
        ;
    }
}


/// The default block and the static-export block cannot overlap: the
/// export block is longer, holds no `*` (the default block does), and the
/// only place either holds the text `cons` is its start.
pub proof fn lemma_config_blocks_do_not_overlap()
    ensures
        no_overlap(default_config_block(), export_config_block()),
{
    let p = default_config_block();
    let r = export_config_block();
    reveal_strlit("const nextConfig: NextConfig = {\n  /* config options here */\n};\n");
    reveal_strlit("const nextConfig: NextConfig = {\n    // Nucleus: static export required for nucleus\n    output: \"export\",\n};");
    assert(p.len() == 64);
    assert(r.len() == 108);
    assert(p[36] == '*');
    assert(forall|i: int| 0 <= i < r.len() ==> #[trigger] r[i] != '*');
    assert(forall|i: int| 1 <= i < r.len() - 1 ==> !(#[trigger] r[i] == 'c' && r[i + 1] == 'o'));
    assert(forall|i: int| 1 <= i < p.len() ==> #[trigger] p[i] == 'c' ==> i == 38);
    assert(p[41] == 'f' && r[3] == 's' && r[107] == ';');
    assert(p[0] == 'c' && p[1] == 'o' && r[0] == 'c' && r[1] == 'o');
    if contains_seq(r, p) {
        let i = choose|i: int| occurs_at(r, i, p);
        assert(r.subrange(i, i + 64)[36] == r[i + 36]);
    }
    assert forall|j: int| 0 < j < p.len() implies #[trigger] r.skip(r.len() - j) != p.take(j) by {
        if r.skip(r.len() - j) == p.take(j) {
            assert(r.skip(r.len() - j)[0] == r[108 - j]);
            if j >= 2 {
                assert(r.skip(r.len() - j)[1] == r[109 - j]);
            }
        }
    }
    assert forall|j: int| 0 < j < p.len() implies #[trigger] p.skip(p.len() - j) != r.take(j) by {
        if p.skip(p.len() - j) == r.take(j) {
            assert(p.skip(p.len() - j)[0] == p[64 - j]);
            if j >= 4 {
                assert(p.skip(p.len() - j)[3] == p[67 - j]);
            }
        }
    }
}

/// Patching an already patched file changes nothing.
pub proof fn lemma_patch_idempotent(config_text: Seq<char>)
    ensures
        replace_all(
            replace_all(config_text, default_config_block(), export_config_block()),
            default_config_block(),
            export_config_block(),
        ) == replace_all(config_text, default_config_block(), export_config_block()),
{
    lemma_config_blocks_do_not_overlap();
    lemma_replace_all_idempotent(config_text, default_config_block(), export_config_block());
}

} // verus!
