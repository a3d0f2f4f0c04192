//! Which files of the configuration directory hold an environment's configuration.
//!
//! A file counts when its extension is `yml` or `yaml`; its environment is what
//! follows the last `-` of its stem, so `application-dev.yml` configures `dev`.

use vstd::prelude::*;

verus! {

/// What a file name says about the file.
#[derive(Debug, Clone, PartialEq, Eq)]
pub enum ConfigFileKind {
    /// Not a YAML file; it is skipped without a word.
    Ignored,
    /// A YAML file whose stem (given here) has no `-`; it is skipped with a warning.
    MissingEnvironment(String),
    /// A YAML file holding the configuration of the environment given here.
    Environment(String),
}

/// The position of the last `c` in `s`, or -1 when `s` has none.
pub open spec fn last_index_of(s: Seq<char>, c: char) -> int
    decreases s.len(),
{
    if s.len() == 0 {
        -1
    } else if s.last() == c {
        s.len() - 1
    } else {
        last_index_of(s.drop_last(), c)
    }
}

/// The position of the last dot of the name, or -1 when it has none. As std's
/// `Path` has it, that dot starts the extension unless it is the first character
/// (see `has_extension`).
pub open spec fn extension_dot(name: Seq<char>) -> int {
    last_index_of(name, '.')
}

/// The name has an extension.
pub open spec fn has_extension(name: Seq<char>) -> bool {
    extension_dot(name) > 0
}

/// The extension: what follows the extension's dot.
pub open spec fn extension(name: Seq<char>) -> Seq<char> {
    name.subrange(extension_dot(name) + 1, name.len() as int)
}

/// The stem: what precedes the extension's dot.
pub open spec fn stem(name: Seq<char>) -> Seq<char> {
    name.subrange(0, extension_dot(name))
}

/// The file holds YAML, judged by its extension.
pub open spec fn is_yaml_name(name: Seq<char>) -> bool {
    has_extension(name) && (extension(name) == "yml"@ || extension(name) == "yaml"@)
}

/// The environment named by a stem: what follows its last `-`.
pub open spec fn env_of_stem(s: Seq<char>) -> Seq<char> {
    s.subrange(last_index_of(s, '-') + 1, s.len() as int)
}

/// A last index is within bounds and points at the character.
pub proof fn lemma_last_index_of(s: Seq<char>, c: char)
    ensures
        -1 <= last_index_of(s, c) < s.len(),
        last_index_of(s, c) >= 0 ==> s[last_index_of(s, c)] == c,
        forall|j: int| last_index_of(s, c) < j < s.len() ==> s[j] != c,
    decreases s.len(),
{
    if s.len() > 0 && s.last() != c {
        let init = s.drop_last();
        lemma_last_index_of(init, c);
        assert forall|j: int| last_index_of(s, c) < j < s.len() implies s[j] != c by {
            if j < s.len() - 1 {
                assert(s[j] == init[j]);
            }
        }
    }
}

/// Finds the last `c` among the characters of `s`.
fn find_last(s: &str, c: char) -> (r: Option<usize>)
    ensures
        match r {
            Some(i) => i == last_index_of(s@, c),
            None => last_index_of(s@, c) == -1,
        },
{
    let n = s.unicode_len();
    let mut i: usize = n;
    proof {
        assert(s@.subrange(0, n as int) =~= s@);
    }
    while i > 0
        invariant
            n == s@.len(),
            i <= n,
            last_index_of(s@, c) == last_index_of(s@.subrange(0, i as int), c),
        decreases i,
    {
        let ch = s.get_char(i - 1);
        if ch == c {
            return Some(i - 1);
        }
        proof {
            assert(s@.subrange(0, i as int).drop_last() =~= s@.subrange(0, i - 1));
        }
        i = i - 1;
    }
    None
}

/// Says whether a file of the configuration directory, by its name, holds the
/// configuration of an environment, and of which.
pub fn classify_config_file(file_name: &str) -> (kind: ConfigFileKind)
    ensures
        match kind {
            ConfigFileKind::Ignored => !is_yaml_name(file_name@),
            ConfigFileKind::MissingEnvironment(s) => is_yaml_name(file_name@) && s@ == stem(
                file_name@,
            ) && last_index_of(s@, '-') == -1,
            ConfigFileKind::Environment(env) => is_yaml_name(file_name@) && last_index_of(
                stem(file_name@),
                '-',
            ) >= 0 && env@ == env_of_stem(stem(file_name@)),
        },
{
    proof {
        lemma_last_index_of(file_name@, '.');
    }
    let n = file_name.unicode_len();
    let dot = match find_last(file_name, '.') {
        Some(d) => d,
        None => {
            return ConfigFileKind::Ignored;
        },
    };
    if dot == 0 {
        return ConfigFileKind::Ignored;
    }
    let ext = file_name.substring_char(dot + 1, n).to_owned();
    if !(ext == String::from_str("yml") || ext == String::from_str("yaml")) {
        return ConfigFileKind::Ignored;
    }
    let stem_str = file_name.substring_char(0, dot);
    proof {
        lemma_last_index_of(stem_str@, '-');
    }
    let stem_len = stem_str.unicode_len();
    match find_last(stem_str, '-') {
        Some(dash) => ConfigFileKind::Environment(
            stem_str.substring_char(dash + 1, stem_len).to_owned(),
        ),
        None => ConfigFileKind::MissingEnvironment(stem_str.to_owned()),
    }
}

/// The last `c` of `s`, then `c`, then characters other than `c`, is the `c` after `s`.
pub proof fn lemma_last_index_after(s: Seq<char>, c: char, rest: Seq<char>)
    requires
        forall|i: int| 0 <= i < rest.len() ==> rest[i] != c,
    ensures
        last_index_of(s.push(c) + rest, c) == s.len(),
    decreases rest.len(),
{
    if rest.len() == 0 {
        assert(s.push(c) + rest =~= s.push(c));
    } else {
        let shorter = rest.drop_last();
        lemma_last_index_after(s, c, shorter);
        assert((s.push(c) + rest).drop_last() =~= s.push(c) + shorter);
        assert((s.push(c) + rest).last() == rest.last());
    }
}

/// A file named `<prefix>-<env>.yml` or `<prefix>-<env>.yaml`, where `env` holds
/// no `-` and no `.`, configures the environment `env`, whatever the prefix.
pub proof fn law_file_names_environment(prefix: Seq<char>, env: Seq<char>, ext: Seq<char>)
    requires
        ext == "yml"@ || ext == "yaml"@,
        forall|i: int| 0 <= i < env.len() ==> env[i] != '-' && env[i] != '.',
    ensures
        is_yaml_name(prefix.push('-') + env.push('.') + ext),
        last_index_of(stem(prefix.push('-') + env.push('.') + ext), '-') >= 0,
        env_of_stem(stem(prefix.push('-') + env.push('.') + ext)) == env,
{
    reveal_strlit("yml");
    reveal_strlit("yaml");
    let stem_part = prefix.push('-') + env;
    let name = prefix.push('-') + env.push('.') + ext;
    assert(name =~= stem_part.push('.') + ext);
    assert forall|i: int| 0 <= i < ext.len() implies ext[i] != '.' by {}
    lemma_last_index_after(stem_part, '.', ext);
    assert(extension_dot(name) == stem_part.len());
    assert(extension(name) =~= ext);
    assert(stem(name) =~= stem_part);
    lemma_last_index_after(prefix, '-', env);
    assert(env_of_stem(stem_part) =~= env);
}

/// A name is a YAML name exactly when it is a non-empty stem followed by `.yml`
/// or by `.yaml`: every other extension is not.
pub proof fn law_yaml_names(name: Seq<char>)
    ensures
        is_yaml_name(name) <==> exists|s: Seq<char>|
            s.len() > 0 && (name == #[trigger] s.push('.') + "yml"@ || name == s.push('.') + "yaml"@),
{
    reveal_strlit("yml");
    reveal_strlit("yaml");
    assert forall|i: int| 0 <= i < "yml"@.len() implies "yml"@[i] != '.' by {}
    assert forall|i: int| 0 <= i < "yaml"@.len() implies "yaml"@[i] != '.' by {}
    if is_yaml_name(name) {
        lemma_last_index_of(name, '.');
        let d = extension_dot(name);
        let s = name.subrange(0, d);
        if extension(name) == "yml"@ {
            assert(name =~= s.push('.') + "yml"@);
        } else {
            assert(name =~= s.push('.') + "yaml"@);
        }
        assert(s.len() > 0);
    }
    if exists|s: Seq<char>|
        s.len() > 0 && (name == #[trigger] s.push('.') + "yml"@ || name == s.push('.') + "yaml"@) {
        let s = choose|s: Seq<char>|
            s.len() > 0 && (name == #[trigger] s.push('.') + "yml"@ || name == s.push('.') + "yaml"@);
        if name == s.push('.') + "yml"@ {
            lemma_last_index_after(s, '.', "yml"@);
            assert(extension(name) =~= "yml"@);
        } else {
            lemma_last_index_after(s, '.', "yaml"@);
            assert(extension(name) =~= "yaml"@);
        }
    }
}

} // verus!
