//! Templates that assemble a runnable program from a script: a template is
//! text with placeholders `#{name}`, where `name` starts with an ASCII letter
//! or `_` and goes on with ASCII letters, digits and `_`.
use vstd::prelude::*;
use vstd::string::{StrSliceExecFns, StringExecFns};
use crate::error::MainError;

verus! {

pub open spec fn is_ident_start(c: char) -> bool {
    ('A' <= c && c <= 'Z') || ('a' <= c && c <= 'z') || c == '_'
}

pub open spec fn is_ident_char(c: char) -> bool {
    is_ident_start(c) || ('0' <= c && c <= '9')
}

/// The first index from `j` on that does not hold a name character.
pub open spec fn ident_end(s: Seq<char>, j: int) -> int
    decreases s.len() - j,
{
    if j < 0 || j >= s.len() || !is_ident_char(s[j]) {
        j
    } else {
        ident_end(s, j + 1)
    }
}

/// Where a placeholder starts at `i`, the index just past its `}`.
pub open spec fn placeholder_at(s: Seq<char>, i: int) -> Option<int> {
    if 0 <= i && i + 2 < s.len() && s[i] == '#' && s[i + 1] == '{' && is_ident_start(s[i + 2]) {
        let e = ident_end(s, i + 3);
        if e < s.len() && s[e] == '}' {
            Some(e + 1)
        } else {
            None
        }
    } else {
        None
    }
}

/// The value that `subs` gives `name`: that of its first pair with that key.
pub open spec fn lookup(subs: Seq<(Seq<char>, Seq<char>)>, name: Seq<char>, k: int) -> Option<Seq<char>>
    decreases subs.len() - k,
{
    if k < 0 || k >= subs.len() {
        None
    } else if subs[k].0 == name {
        Some(subs[k].1)
    } else {
        lookup(subs, name, k + 1)
    }
}

pub open spec fn prepend(p: Seq<char>, r: Result<Seq<char>, Seq<char>>) -> Result<Seq<char>, Seq<char>> {
    match r {
        Ok(t) => Ok(p + t),
        Err(n) => Err(n),
    }
}

/// The expansion of `s` from index `i` on: each placeholder is replaced by
/// its value, all other text is kept; the first placeholder without a value
/// gives its name as the error.
pub open spec fn expansion(s: Seq<char>, subs: Seq<(Seq<char>, Seq<char>)>, i: int) -> Result<Seq<char>, Seq<char>>
    decreases s.len() - i,
    via expansion_decreases
{
    if i < 0 || i >= s.len() {
        Ok(Seq::empty())
    } else {
        match placeholder_at(s, i) {
            Some(e) => match lookup(subs, s.subrange(i + 2, e - 1), 0) {
                Some(v) => prepend(v, expansion(s, subs, e)),
                None => Err(s.subrange(i + 2, e - 1)),
            },
            None => prepend(seq![s[i]], expansion(s, subs, i + 1)),
        }
    }
}

proof fn lemma_ident_end_bounds(s: Seq<char>, j: int)
    requires
        0 <= j <= s.len(),
    ensures
        j <= ident_end(s, j) <= s.len(),
        forall|k: int| j <= k < ident_end(s, j) ==> is_ident_char(#[trigger] s[k]),
    decreases s.len() - j,
{
    if j < s.len() && is_ident_char(s[j]) {
        lemma_ident_end_bounds(s, j + 1);
    }
}

#[via_fn]
proof fn expansion_decreases(s: Seq<char>, subs: Seq<(Seq<char>, Seq<char>)>, i: int) {
    if 0 <= i && i + 2 < s.len() {
        lemma_ident_end_bounds(s, i + 3);
    }
}

pub open spec fn subs_view(subs: Seq<(String, String)>) -> Seq<(Seq<char>, Seq<char>)> {
    subs.map_values(|p: (String, String)| (p.0@, p.1@))
}

fn ident_start(c: char) -> (r: bool)
    ensures
        r == is_ident_start(c),
{
    ('A' <= c && c <= 'Z') || ('a' <= c && c <= 'z') || c == '_'
}

fn ident_char(c: char) -> (r: bool)
    ensures
        r == is_ident_char(c),
{
    ident_start(c) || ('0' <= c && c <= '9')
}

/// Finds the placeholder that starts at `i`, if any.
fn find_placeholder(s: &str, n: usize, i: usize) -> (r: Option<usize>)
    requires
        n == s@.len(),
        i < n,
    ensures
        match r {
            Some(e) => placeholder_at(s@, i as int) == Some(e as int),
            None => placeholder_at(s@, i as int) is None,
        },
{
    if n - i <= 2 || s.get_char(i) != '#' || s.get_char(i + 1) != '{' || !ident_start(s.get_char(i + 2)) {
        return None;
    }
    let mut j: usize = i + 3;
    while j < n && ident_char(s.get_char(j))
        invariant
            i + 3 <= j <= n,
            n == s@.len(),
            ident_end(s@, i + 3) == ident_end(s@, j as int),
        decreases n - j,
    {
        j = j + 1;
    }
    if j < n && s.get_char(j) == '}' {
        Some(j + 1)
    } else {
        None
    }
}

/// The value of `name` in `subs`: that of the first pair with that key.
fn find_sub<'a>(subs: &'a Vec<(String, String)>, name: &String) -> (r: Option<&'a String>)
    ensures
        match r {
            Some(v) => lookup(subs_view(subs@), name@, 0) == Some(v@),
            None => lookup(subs_view(subs@), name@, 0) is None,
        },
{
    let mut k: usize = 0;
    while k < subs.len()
        invariant
            k <= subs@.len(),
            lookup(subs_view(subs@), name@, 0) == lookup(subs_view(subs@), name@, k as int),
        decreases subs@.len() - k,
    {
        let key = &subs[k].0;
        if *key == *name {
            return Some(&subs[k].1);
        }
        k = k + 1;
    }
    None
}

proof fn lemma_prepend_assoc(a: Seq<char>, b: Seq<char>, r: Result<Seq<char>, Seq<char>>)
    ensures
        prepend(a, prepend(b, r)) == prepend(a + b, r),
{
    if let Ok(t) = r {
        assert(a + (b + t) =~= (a + b) + t);
    }
}

/// Replaces each placeholder `#{name}` of `src` by the value that `subs`
/// gives `name` and keeps all other text; fails on the first placeholder whose
/// name has no value.
pub fn expand(src: &str, subs: &Vec<(String, String)>) -> (r: Result<String, MainError>)
    ensures
        match expansion(src@, subs_view(subs@), 0) {
            Ok(t) => r is Ok && r->Ok_0@ == t,
            Err(name) => r matches Err(MainError::UnknownSubstitution { name: n }) && n@ == name,
        },
{
    let ghost s = src@;
    let ghost sv = subs_view(subs@);
    let n = src.unicode_len();
    let mut result = String::new();
    let mut anchor: usize = 0;
    let mut i: usize = 0;
    while i < n
        invariant
            n == s.len(),
            s == src@,
            sv == subs_view(subs@),
            anchor <= i <= n,
            expansion(s, sv, 0) == prepend(result@ + s.subrange(anchor as int, i as int), expansion(s, sv, i as int)),
        decreases n - i,
    {
        match find_placeholder(src, n, i) {
            Some(e) => {
                proof {
                    lemma_ident_end_bounds(s, i + 3);
                }
                let name = String::from_str(src.substring_char(i + 2, e - 1));
                match find_sub(subs, &name) {
                    Some(v) => {
                        let ghost before = result@;
                        result.append(src.substring_char(anchor, i));
                        result.append(v.as_str());
                        proof {
                            lemma_prepend_assoc(before + s.subrange(anchor as int, i as int), v@, expansion(s, sv, e as int));
                            assert(s.subrange(e as int, e as int) =~= Seq::<char>::empty());
                            assert(result@ + s.subrange(e as int, e as int) =~= before + s.subrange(anchor as int, i as int) + v@);
                        }
                        anchor = e;
                        i = e;
                    },
                    None => {
                        proof {
                            lemma_prepend_assoc(result@, s.subrange(anchor as int, i as int), expansion(s, sv, i as int));
                        }
                        return Err(MainError::UnknownSubstitution { name });
                    },
                }
            },
            None => {
                proof {
                    lemma_prepend_assoc(result@ + s.subrange(anchor as int, i as int), seq![s[i as int]], expansion(s, sv, i + 1));
                    assert(result@ + s.subrange(anchor as int, i + 1) =~= result@ + s.subrange(anchor as int, i as int) + seq![s[i as int]]);
                }
                i = i + 1;
            },
        }
    }
    result.append(src.substring_char(anchor, n));
    proof {
        assert(result@ =~= result@ + Seq::<char>::empty());
    }
    Ok(result)
}

/// The built-in template that evaluates an expression and prints its value
/// unless it is `()`.
pub const EXPR_TEMPLATE: &'static str = r#"#{prelude}
fn main() {
    let exit_code = match try_main() {
        Ok(()) => None,
        Err(e) => {
            use std::io::{self, Write};
            let _ = writeln!(io::stderr(), "Error: {}", e);
            Some(1)
        },
    };
    if let Some(exit_code) = exit_code {
        std::process::exit(exit_code);
    }
}

fn try_main() -> Result<(), Box<dyn std::error::Error>> {
    fn is_unit<T: ?Sized + std::any::Any>(_s: &T) -> bool {
        std::any::TypeId::of::<()>() == std::any::TypeId::of::<T>()
    }
    match {#{script}} {
        expr_value => {
            if !is_unit(&expr_value) {
                println!("{:?}", expr_value);
            }
        }
    }
    Ok(())
}
"#;

/// The built-in template for a whole file: the script as it is.
pub const FILE_TEMPLATE: &'static str = "#{script}";

/// The built-in template that calls a closure on each line of standard input
/// and prints each result that is not `()`.
pub const LOOP_TEMPLATE: &'static str = r#"#{prelude}
use std::any::Any;
use std::io::prelude::*;

fn main() {
    let mut closure = enforce_closure(
{#{script}}
    );
    let mut line_buffer = String::new();
    let stdin = std::io::stdin();
    loop {
        line_buffer.clear();
        let read_res = stdin.read_line(&mut line_buffer).unwrap_or(0);
        if read_res == 0 { break }
        let output = closure(&line_buffer);

        let display = {
            let output_any: &dyn Any = &output;
            !output_any.is::<()>()
        };

        if display {
            println!("{:?}", output);
        }
    }
}

fn enforce_closure<F, T>(closure: F) -> F
where F: FnMut(&str) -> T, T: 'static {
    closure
}
"#;

/// The built-in template that calls a closure on each line of standard input
/// together with the line's number, counted from one.
pub const LOOP_COUNT_TEMPLATE: &'static str = r#"#{prelude}
use std::any::Any;
use std::io::prelude::*;

fn main() {
    let mut closure = enforce_closure(
{#{script}}
    );
    let mut line_buffer = String::new();
    let stdin = std::io::stdin();
    let mut count = 0;
    loop {
        line_buffer.clear();
        let read_res = stdin.read_line(&mut line_buffer).unwrap_or(0);
        if read_res == 0 { break }
        count += 1;
        let output = closure(&line_buffer, count);

        let display = {
            let output_any: &dyn Any = &output;
            !output_any.is::<()>()
        };

        if display {
            println!("{:?}", output);
        }
    }
}

fn enforce_closure<F, T>(closure: F) -> F
where F: FnMut(&str, usize) -> T, T: 'static {
    closure
}
"#;

fn str_eq(a: &str, b: &str) -> (r: bool)
    ensures
        r == (a@ == b@),
{
    let n = a.unicode_len();
    if n != b.unicode_len() {
        return false;
    }
    let mut i: usize = 0;
    while i < n
        invariant
            n == a@.len(),
            n == b@.len(),
            i <= n,
            forall|k: int| 0 <= k < i ==> a@[k] == b@[k],
        decreases n - i,
    {
        if a.get_char(i) != b.get_char(i) {
            return false;
        }
        i = i + 1;
    }
    assert(a@ =~= b@);
    true
}

/// The text of the built-in template called `name`, if there is one.
pub fn builtin_template(name: &str) -> (r: Option<&'static str>)
    ensures
        name@ == "expr"@ ==> r == Some(EXPR_TEMPLATE),
        name@ == "file"@ ==> r == Some(FILE_TEMPLATE),
        name@ == "loop"@ ==> r == Some(LOOP_TEMPLATE),
        name@ == "loop-count"@ ==> r == Some(LOOP_COUNT_TEMPLATE),
        name@ != "expr"@ && name@ != "file"@ && name@ != "loop"@ && name@ != "loop-count"@ ==> r is None,
{
    proof {
        reveal_strlit("expr");
        reveal_strlit("file");
        reveal_strlit("loop");
        reveal_strlit("loop-count");
        assert("expr"@[0] != "file"@[0]);
        assert("expr"@[0] != "loop"@[0]);
        assert("file"@[0] != "loop"@[0]);
        assert("loop"@.len() != "loop-count"@.len());
        assert("expr"@.len() != "loop-count"@.len());
        assert("file"@.len() != "loop-count"@.len());
    }
    if str_eq(name, "expr") {
        Some(EXPR_TEMPLATE)
    } else if str_eq(name, "file") {
        Some(FILE_TEMPLATE)
    } else if str_eq(name, "loop") {
        Some(LOOP_TEMPLATE)
    } else if str_eq(name, "loop-count") {
        Some(LOOP_COUNT_TEMPLATE)
    } else {
        None
    }
}

/// What the `templates` subcommand was asked to do.
#[derive(Clone, Debug, PartialEq, Eq)]
pub enum Args {
    /// Print the template called `name`.
    Dump { name: String },
    /// List the templates in the template directory.
    List,
    /// Open the template directory, or print its path where `path` is set.
    Show { path: bool },
}

} // verus!
