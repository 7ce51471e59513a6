//! Template materialization: the variable context, the rendering step,
//! and the recursive mirror of a template tree into a destination tree,
//! applying the skip, rename and substitution policy to each entry.

use vstd::prelude::*;
use vstd::string::*;

use crate::config::ProjectConfig;
use crate::strutil::str_eq;
use crate::validation::{should_skip_file, should_template_file, spec_should_skip,
    spec_should_template};

verus! {

#[verifier::external_type_specification]
#[verifier::external_body]
pub struct ExContext(tera::Context);

/// A variable's value in a template context. The engine distinguishes the
/// value's type — a number and the text of its digits behave differently
/// under filters, tests and arithmetic — so the model keeps the tag.
pub enum CtxValue {
    Text(Seq<char>),
    Number(int),
}

/// The variable-to-value mapping a context holds.
pub uninterp spec fn ctx_vars(c: tera::Context) -> Map<Seq<char>, CtxValue>;

/// The empty variable mapping.
pub open spec fn empty_vars() -> Map<Seq<char>, CtxValue> {
    Map::<Seq<char>, CtxValue>::empty()
}

/// Relies on `tera::Context::new`: a context holding no variables.
#[verifier::external_body]
fn ctx_new() -> (r: tera::Context)
    ensures
        ctx_vars(r) == empty_vars(),
{
    tera::Context::new()
}

/// Relies on `tera::Context::insert`: binds the key to the given string
/// value, replacing any earlier binding.
#[verifier::external_body]
fn ctx_insert_str(c: &mut tera::Context, key: &str, value: &str)
    ensures
        ctx_vars(*final (c)) == ctx_vars(*old(c)).insert(key@, CtxValue::Text(value@)),
{
    c.insert(key.to_owned(), value)
}

/// Relies on `tera::Context::insert` serializing an `i32` as a number
/// value, replacing any earlier binding under the key.
#[verifier::external_body]
fn ctx_insert_i32(c: &mut tera::Context, key: &str, value: i32)
    ensures
        ctx_vars(*final (c)) == ctx_vars(*old(c)).insert(key@, CtxValue::Number(value as int)),
{
    c.insert(key.to_owned(), &value)
}

/// What rendering a template against a set of variables yields: the
/// rendered text, or `None` when the template is malformed.
pub uninterp spec fn rendered(template: Seq<char>, vars: Map<Seq<char>, CtxValue>) -> Option<
    Seq<char>,
>;

/// Relies on `tera::Tera::one_off`, which parses the one-off template and
/// renders it against the context on a fresh default engine, with
/// autoescaping off: the outcome is a function of the template text and
/// the context variables alone.
#[verifier::external_body]
fn render_template(content: &str, context: &tera::Context) -> (r: Option<String>)
    ensures
        match r {
            Some(s) => rendered(content@, ctx_vars(*context)) == Some(s@),
            None => rendered(content@, ctx_vars(*context)) is None,
        },
{
    match tera::Tera::one_off(content, context, false) {
        Ok(s) => Some(s),
        Err(_) => None,
    }
}

/// The variable mapping derived from a configuration: one variable per
/// configuration field.
pub open spec fn spec_context_of(config: ProjectConfig) -> Map<Seq<char>, CtxValue> {
    Map::<Seq<char>, CtxValue>::empty().insert(
        "program_name_dash"@,
        CtxValue::Text(config.program_name_dash@),
    ).insert("program_name_underscore"@, CtxValue::Text(config.program_name_underscore@)).insert(
        "program_name_readable"@,
        CtxValue::Text(config.program_name_readable@),
    ).insert("year"@, CtxValue::Number(config.year as int)).insert(
        "company_name"@,
        CtxValue::Text(config.company_name@),
    ).insert("program_pubkey"@, CtxValue::Text(config.program_pubkey@))
}

/// Creates a template context from project configuration.
pub fn create_template_context(config: &ProjectConfig) -> (r: tera::Context)
    ensures
        ctx_vars(r) == spec_context_of(*config),
{
    let mut context = ctx_new();
    ctx_insert_str(&mut context, "program_name_dash", config.program_name_dash.as_str());
    ctx_insert_str(
        &mut context,
        "program_name_underscore",
        config.program_name_underscore.as_str(),
    );
    ctx_insert_str(&mut context, "program_name_readable", config.program_name_readable.as_str());
    ctx_insert_i32(&mut context, "year", config.year);
    ctx_insert_str(&mut context, "company_name", config.company_name.as_str());
    ctx_insert_str(&mut context, "program_pubkey", config.program_pubkey.as_str());
    context
}

/// A node of an in-memory file tree: the transient shape of a directory
/// entry during materialization, carrying its name and, for files, the
/// full contents.
///
/// Contents are modeled as text: every file is read as text before it
/// enters the tree, template-eligible or not, so a non-UTF-8 file fails
/// at the read boundary in the application and never reaches the engine.
/// Within that model, files outside the template allow-list pass through
/// byte-for-byte.
#[derive(Debug, PartialEq, Eq)]
pub enum FsTree {
    File { name: String, content: String },
    Dir { name: String, entries: Vec<FsTree> },
}

/// The mathematical shape of a file tree.
pub enum SpecTree {
    File { name: Seq<char>, content: Seq<char> },
    Dir { name: Seq<char>, entries: Seq<SpecTree> },
}

/// The abstraction of an in-memory tree node.
pub open spec fn tree_view(t: FsTree) -> SpecTree
    decreases t,
{
    match t {
        FsTree::File { name, content } => SpecTree::File { name: name@, content: content@ },
        FsTree::Dir { name, entries } => SpecTree::Dir {
            name: name@,
            entries: views_of(entries@),
        },
    }
}

/// The abstractions of a sequence of tree nodes, in order.
pub open spec fn views_of(s: Seq<FsTree>) -> Seq<SpecTree>
    decreases s,
{
    if s.len() == 0 {
        Seq::empty()
    } else {
        seq![tree_view(s[0])] + views_of(s.drop_first())
    }
}

impl View for FsTree {
    type V = SpecTree;

    open spec fn view(&self) -> SpecTree {
        tree_view(*self)
    }
}

/// The sequence of abstractions is pointwise: as long as the concrete
/// sequence, with the abstraction of each node at its index.
pub proof fn lemma_views_of(s: Seq<FsTree>)
    ensures
        views_of(s).len() == s.len(),
        forall|i: int| 0 <= i < s.len() ==> views_of(s)[i] == (#[trigger] s[i])@,
    decreases s,
{
    if s.len() > 0 {
        lemma_views_of(s.drop_first());
        assert forall|i: int| 0 <= i < s.len() implies views_of(s)[i] == (#[trigger] s[i])@ by {
            if i == 0 {
                assert(views_of(s)[0] == tree_view(s[0]));
            } else {
                assert(views_of(s)[i] == views_of(s.drop_first())[i - 1]);
                assert(s.drop_first()[i - 1] == s[i]);
            }
        }
    }
}

/// Abstraction commutes with appending one node.
pub proof fn lemma_views_of_push(s: Seq<FsTree>, t: FsTree)
    ensures
        views_of(s.push(t)) =~= views_of(s) + seq![t@],
{
    lemma_views_of(s.push(t));
    lemma_views_of(s);
    assert forall|j: int|
        0 <= j < s.push(t).len() implies views_of(s.push(t))[j] == (views_of(s) + seq![t@])[j] by {
        assert(views_of(s.push(t))[j] == s.push(t)[j]@);
        if j < s.len() {
            assert(s.push(t)[j] == s[j]);
            assert(views_of(s)[j] == s[j]@);
        } else {
            assert(s.push(t)[j] == t);
        }
    }
}

/// A node's own name.
pub open spec fn name_of(t: SpecTree) -> Seq<char> {
    match t {
        SpecTree::File { name, .. } => name,
        SpecTree::Dir { name, .. } => name,
    }
}

/// The reserved placeholder directory name inside the template tree.
pub open spec fn spec_placeholder() -> Seq<char> {
    "counter-pinocchio"@
}

/// The reserved placeholder directory name, as a string slice.
pub fn placeholder_dir_name() -> (r: &'static str)
    ensures
        r@ == spec_placeholder(),
{
    "counter-pinocchio"
}

/// The destination name of an entry: the project's dash-case name for the
/// one reserved placeholder, the source name verbatim for every other
/// entry.
pub open spec fn spec_dest_name(name: Seq<char>, dash: Seq<char>) -> Seq<char> {
    if name == spec_placeholder() {
        dash
    } else {
        name
    }
}

/// The destination contents of a file: template-eligible files are
/// rendered against the variables, falling back to the original text when
/// the template is malformed; all other files are passed through
/// unchanged.
pub open spec fn spec_file_output(
    name: Seq<char>,
    content: Seq<char>,
    vars: Map<Seq<char>, CtxValue>,
) -> Seq<char> {
    if spec_should_template(name) {
        match rendered(content, vars) {
            Some(r) => r,
            None => content,
        }
    } else {
        content
    }
}

/// The materialization of one kept entry: rename, then render or pass
/// through files, and mirror directories recursively.
pub open spec fn spec_materialize(
    t: SpecTree,
    vars: Map<Seq<char>, CtxValue>,
    dash: Seq<char>,
) -> SpecTree
    decreases t,
{
    match t {
        SpecTree::File { name, content } => SpecTree::File {
            name: spec_dest_name(name, dash),
            content: spec_file_output(name, content, vars),
        },
        SpecTree::Dir { name, entries } => SpecTree::Dir {
            name: spec_dest_name(name, dash),
            entries: spec_materialize_entries(entries, vars, dash),
        },
    }
}

/// The materialization of an entry list: skipped entries are omitted
/// entirely, the others materialized in order.
pub open spec fn spec_materialize_entries(
    s: Seq<SpecTree>,
    vars: Map<Seq<char>, CtxValue>,
    dash: Seq<char>,
) -> Seq<SpecTree>
    decreases s,
{
    if s.len() == 0 {
        Seq::empty()
    } else {
        let rest = spec_materialize_entries(s.drop_first(), vars, dash);
        if spec_should_skip(name_of(s[0])) {
            rest
        } else {
            seq![spec_materialize(s[0], vars, dash)] + rest
        }
    }
}

/// Compute the destination name of one entry.
fn dest_entry_name(name: &String, program_name_dash: &str) -> (r: String)
    ensures
        r@ == spec_dest_name(name@, program_name_dash@),
{
    if str_eq(name.as_str(), placeholder_dir_name()) {
        program_name_dash.to_owned()
    } else {
        name.clone()
    }
}

/// Copies a single file's contents with optional template processing: a
/// template-eligible file is rendered against the context, keeping the
/// original text when rendering fails; any other file passes through
/// unchanged.
pub fn copy_file_with_templating(file_name: &str, content: &str, context: &tera::Context) -> (out:
    String)
    ensures
        out@ == spec_file_output(file_name@, content@, ctx_vars(*context)),
{
    if should_template_file(file_name) {
        match render_template(content, context) {
            Some(rendered_content) => rendered_content,
            None => content.to_owned(),
        }
    } else {
        content.to_owned()
    }
}

/// Recursively mirrors a directory's entries with template processing:
/// skipped entries are omitted, the reserved placeholder directory is
/// renamed to the project's name, files are rendered or passed through,
/// and subdirectories are mirrored depth-first.
pub fn copy_dir_recursive(
    entries: &Vec<FsTree>,
    context: &tera::Context,
    program_name_dash: &str,
) -> (r: Vec<FsTree>)
    ensures
        views_of(r@) == spec_materialize_entries(
            views_of(entries@),
            ctx_vars(*context),
            program_name_dash@,
        ),
    decreases views_of(entries@),
{
    let ghost vars = ctx_vars(*context);
    let ghost dash = program_name_dash@;
    let ghost all = views_of(entries@);
    let mut out: Vec<FsTree> = Vec::new();
    proof {
        assert(all.skip(0) =~= all);
        assert(views_of(out@) =~= Seq::<SpecTree>::empty());
    }
    let n = entries.len();
    let mut i: usize = 0;
    while i < n
        invariant
            i <= n,
            n == entries@.len(),
            all == views_of(entries@),
            vars == ctx_vars(*context),
            dash == program_name_dash@,
            spec_materialize_entries(all, vars, dash) == views_of(out@)
                + spec_materialize_entries(all.skip(i as int), vars, dash),
        decreases n - i,
    {
        proof {
            lemma_views_of(entries@);
            assert(all.skip(i as int)[0] == all[i as int]);
            assert(all[i as int] == entries@[i as int]@);
            assert(all.skip(i as int).drop_first() =~= all.skip(i as int + 1));
        }
        match &entries[i] {
            FsTree::File { name, content } => {
                if should_skip_file(name.as_str()) {
                    proof {
                        assert(name_of(all[i as int]) == name@);
                    }
                } else {
                    let dest_name = dest_entry_name(name, program_name_dash);
                    let dest_content = copy_file_with_templating(
                        name.as_str(),
                        content.as_str(),
                        context,
                    );
                    let node = FsTree::File { name: dest_name, content: dest_content };
                    proof {
                        assert(node@ == spec_materialize(all[i as int], vars, dash));
                        lemma_views_of_push(out@, node);
                    }
                    out.push(node);
                }
            },
            FsTree::Dir { name, entries: child_entries } => {
                if should_skip_file(name.as_str()) {
                    proof {
                        assert(name_of(all[i as int]) == name@);
                    }
                } else {
                    let dest_name = dest_entry_name(name, program_name_dash);
                    proof {
                        assert(entries@[i as int]@ == (SpecTree::Dir {
                            name: name@,
                            entries: views_of(child_entries@),
                        }));
                        assert(decreases_to!(all => all[i as int]));
                        assert(decreases_to!(all[i as int] => views_of(child_entries@)));
                    }
                    let dest_entries = copy_dir_recursive(child_entries, context, program_name_dash);
                    let node = FsTree::Dir { name: dest_name, entries: dest_entries };
                    proof {
                        assert(node@ == (SpecTree::Dir {
                            name: dest_name@,
                            entries: views_of(dest_entries@),
                        }));
                        assert(node@ == spec_materialize(all[i as int], vars, dash));
                        lemma_views_of_push(out@, node);
                    }
                    out.push(node);
                }
            },
        }
        proof {
            assert(spec_materialize_entries(all, vars, dash) == views_of(out@)
                + spec_materialize_entries(all.skip(i as int + 1), vars, dash));
        }
        i = i + 1;
    }
    proof {
        lemma_views_of(entries@);
        assert(all.skip(n as int) =~= Seq::<SpecTree>::empty());
        assert(views_of(out@) + Seq::<SpecTree>::empty() =~= views_of(out@));
    }
    out
}

/// Copies all template entries to the destination tree; the whole
/// materialization is one recursive mirror of the template root's
/// entries.
pub fn copy_template_files(
    template_entries: &Vec<FsTree>,
    context: &tera::Context,
    program_name_dash: &str,
) -> (r: Vec<FsTree>)
    ensures
        views_of(r@) == spec_materialize_entries(
            views_of(template_entries@),
            ctx_vars(*context),
            program_name_dash@,
        ),
{
    copy_dir_recursive(template_entries, context, program_name_dash)
}

/// Whether no file anywhere in the tree is template-eligible.
pub open spec fn untemplated(t: SpecTree) -> bool
    decreases t,
{
    match t {
        SpecTree::File { name, .. } => !spec_should_template(name),
        SpecTree::Dir { entries, .. } => forall|i: int|
            0 <= i < entries.len() ==> untemplated(#[trigger] entries[i]),
    }
}

/// Whether no entry anywhere in the tree bears the reserved placeholder
/// name.
pub open spec fn placeholder_free(t: SpecTree) -> bool
    decreases t,
{
    name_of(t) != spec_placeholder() && match t {
        SpecTree::File { .. } => true,
        SpecTree::Dir { entries, .. } => forall|i: int|
            0 <= i < entries.len() ==> placeholder_free(#[trigger] entries[i]),
    }
}

/// Whether no entry anywhere in the tree is skipped.
pub open spec fn skip_free(t: SpecTree) -> bool
    decreases t,
{
    !spec_should_skip(name_of(t)) && match t {
        SpecTree::File { .. } => true,
        SpecTree::Dir { entries, .. } => forall|i: int|
            0 <= i < entries.len() ==> skip_free(#[trigger] entries[i]),
    }
}

/// The tree with its skipped entries removed and nothing else changed.
pub open spec fn spec_prune(t: SpecTree) -> SpecTree
    decreases t,
{
    match t {
        SpecTree::File { .. } => t,
        SpecTree::Dir { name, entries } => SpecTree::Dir {
            name,
            entries: spec_prune_entries(entries),
        },
    }
}

/// The entry list with its skipped entries removed and nothing else
/// changed.
pub open spec fn spec_prune_entries(s: Seq<SpecTree>) -> Seq<SpecTree>
    decreases s,
{
    if s.len() == 0 {
        Seq::empty()
    } else {
        let rest = spec_prune_entries(s.drop_first());
        if spec_should_skip(name_of(s[0])) {
            rest
        } else {
            seq![spec_prune(s[0])] + rest
        }
    }
}

/// Materializing a tree that holds no template-eligible file and no
/// placeholder-named entry only removes the skipped entries: every kept
/// name and every kept file's contents come out unchanged.
pub proof fn lemma_plain_materialize(t: SpecTree, vars: Map<Seq<char>, CtxValue>, dash: Seq<char>)
    requires
        untemplated(t),
        placeholder_free(t),
    ensures
        spec_materialize(t, vars, dash) == spec_prune(t),
    decreases t,
{
    match t {
        SpecTree::File { .. } => {
        },
        SpecTree::Dir { name, entries } => {
            lemma_plain_materialize_entries(entries, vars, dash);
        },
    }
}

/// The entry-list form of [`lemma_plain_materialize`].
pub proof fn lemma_plain_materialize_entries(
    s: Seq<SpecTree>,
    vars: Map<Seq<char>, CtxValue>,
    dash: Seq<char>,
)
    requires
        forall|i: int| 0 <= i < s.len() ==> untemplated(#[trigger] s[i]),
        forall|i: int| 0 <= i < s.len() ==> placeholder_free(#[trigger] s[i]),
    ensures
        spec_materialize_entries(s, vars, dash) == spec_prune_entries(s),
    decreases s,
{
    if s.len() > 0 {
        assert(forall|i: int| 0 <= i < s.drop_first().len() ==> s.drop_first()[i] == s[i + 1]);
        lemma_plain_materialize_entries(s.drop_first(), vars, dash);
        if !spec_should_skip(name_of(s[0])) {
            lemma_plain_materialize(s[0], vars, dash);
        }
    }
}

/// Pruning a tree in which nothing is skipped changes nothing.
pub proof fn lemma_prune_skip_free(t: SpecTree)
    requires
        skip_free(t),
    ensures
        spec_prune(t) == t,
    decreases t,
{
    match t {
        SpecTree::File { .. } => {
        },
        SpecTree::Dir { name, entries } => {
            lemma_prune_entries_skip_free(entries);
        },
    }
}

/// The entry-list form of [`lemma_prune_skip_free`].
pub proof fn lemma_prune_entries_skip_free(s: Seq<SpecTree>)
    requires
        forall|i: int| 0 <= i < s.len() ==> skip_free(#[trigger] s[i]),
    ensures
        spec_prune_entries(s) == s,
    decreases s,
{
    if s.len() > 0 {
        assert(forall|i: int| 0 <= i < s.drop_first().len() ==> s.drop_first()[i] == s[i + 1]);
        lemma_prune_entries_skip_free(s.drop_first());
        lemma_prune_skip_free(s[0]);
        assert(seq![s[0]] + s.drop_first() =~= s);
    }
}

/// When the project name differs from the reserved placeholder, no entry
/// anywhere in a materialized tree bears the placeholder name: the one
/// reserved name is renamed at every level, and every other entry keeps
/// a name that was not the placeholder to begin with.
pub proof fn lemma_materialize_placeholder_free(
    t: SpecTree,
    vars: Map<Seq<char>, CtxValue>,
    dash: Seq<char>,
)
    requires
        dash != spec_placeholder(),
    ensures
        placeholder_free(spec_materialize(t, vars, dash)),
    decreases t,
{
    match t {
        SpecTree::File { name, content } => {
            assert(spec_materialize(t, vars, dash) == (SpecTree::File {
                name: spec_dest_name(name, dash),
                content: spec_file_output(name, content, vars),
            }));
            assert(spec_dest_name(name, dash) != spec_placeholder());
            assert(placeholder_free(spec_materialize(t, vars, dash)));
        },
        SpecTree::Dir { name, entries } => {
            lemma_materialize_entries_placeholder_free(entries, vars, dash);
            assert(spec_materialize(t, vars, dash) == (SpecTree::Dir {
                name: spec_dest_name(name, dash),
                entries: spec_materialize_entries(entries, vars, dash),
            }));
            assert(spec_dest_name(name, dash) != spec_placeholder());
            assert(placeholder_free(spec_materialize(t, vars, dash)));
        },
    }
}

/// The entry-list form of [`lemma_materialize_placeholder_free`].
pub proof fn lemma_materialize_entries_placeholder_free(
    s: Seq<SpecTree>,
    vars: Map<Seq<char>, CtxValue>,
    dash: Seq<char>,
)
    requires
        dash != spec_placeholder(),
    ensures
        forall|i: int|
            0 <= i < spec_materialize_entries(s, vars, dash).len() ==> placeholder_free(
                #[trigger] spec_materialize_entries(s, vars, dash)[i],
            ),
    decreases s,
{
    if s.len() > 0 {
        lemma_materialize_entries_placeholder_free(s.drop_first(), vars, dash);
        let rest = spec_materialize_entries(s.drop_first(), vars, dash);
        if !spec_should_skip(name_of(s[0])) {
            lemma_materialize_placeholder_free(s[0], vars, dash);
            let out = seq![spec_materialize(s[0], vars, dash)] + rest;
            assert forall|i: int| 0 <= i < out.len() implies placeholder_free(out[i]) by {
                if i == 0 {
                    assert(out[0] == spec_materialize(s[0], vars, dash));
                } else {
                    assert(out[i] == rest[i - 1]);
                }
            }
        }
    }
}

} // verus!
