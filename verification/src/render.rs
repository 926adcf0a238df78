//! The renderer: a walk over the module table, depth first, that hands each
//! declaration and each named module to its template.

use vstd::prelude::*;
use vstd::string::*;
use crate::error::{RenderError, RenderFailure};
use crate::expr::expr_text;
use crate::module::{IdlModule, ModuleView};
use crate::template::{
    context_view, record_view, record_views, render_template, template_output, TemplateSet,
    TemplateSetView, TemplateValue, TemplateValueView,
};
use crate::text::{clone_strings, push_repeated, repeated, texts};
use crate::types::{
    case_views, member_views, type_text, ConstDclView, IdlConstDcl, IdlStructMember, IdlSwitchCase,
    IdlSwitchLabel, IdlTypeDcl, IdlTypeDclKind, StructMemberView, SwitchCaseView, SwitchLabelView,
    TypeDclView, TypeSpecView,
};

verus! {

/// The text of one level of indentation.
pub open spec fn indent_unit() -> Seq<char> {
    "    "@
}

/// The attribute that stands above every import.
pub open spec fn import_attr() -> Seq<char> {
    "#[allow(unused_imports)]"@
}

/// The indentation of the given level.
pub open spec fn indentation(level: nat) -> Seq<char> {
    repeated(indent_unit(), level)
}

/// One import at the given level: the attribute on a line, the import on the
/// next.
pub open spec fn import_text(level: nat, import: Seq<char>) -> Seq<char> {
    indentation(level) + import_attr() + "\n"@ + indentation(level) + import + "\n"@
}

/// The two imports that open every named module: the growable vector and the
/// serialization derives.
pub open spec fn imports_text(level: nat) -> Seq<char> {
    import_text(level, "use std::vec::Vec;"@) + import_text(
        level,
        "use serde_derive::{Serialize, Deserialize};"@,
    )
}

/// The first `count` of a module's own imports, at the given level.
pub open spec fn uses_text(uses: Seq<Seq<char>>, count: nat, level: nat) -> Seq<char>
    decreases count,
{
    if count == 0 || count > uses.len() {
        Seq::empty()
    } else {
        uses_text(uses, (count - 1) as nat, level) + import_text(level, uses[count - 1])
    }
}

/// What a template gave, or the failure of the engine.
pub open spec fn rendered(output: Option<Seq<char>>) -> Result<Seq<char>, RenderFailure> {
    match output {
        Some(text) => Ok(text),
        None => Err(RenderFailure::Template),
    }
}

/// The context of the `typedef` template.
pub open spec fn typedef_context(id: Seq<char>, type_spec: TypeSpecView, level: nat) -> Seq<
    (Seq<char>, TemplateValueView),
> {
    seq![
        ("typedef_name"@, TemplateValueView::Text(id)),
        ("typedef_type"@, TemplateValueView::Text(type_text(type_spec))),
        ("indent_level"@, TemplateValueView::Number(level)),
    ]
}

/// The record of a structure member: its name and its type as text.
pub open spec fn field_record(member: StructMemberView) -> Seq<(Seq<char>, Seq<char>)> {
    seq![("name"@, member.id), ("type_str"@, type_text(member.type_spec))]
}

/// The records of the members of a structure.
pub open spec fn field_records(members: Seq<StructMemberView>) -> Seq<
    Seq<(Seq<char>, Seq<char>)>,
> {
    Seq::new(members.len(), |i: int| field_record(members[i]))
}

/// The context of the `struct` template.
pub open spec fn struct_context(id: Seq<char>, members: Seq<StructMemberView>, level: nat) -> Seq<
    (Seq<char>, TemplateValueView),
> {
    seq![
        ("struct_name"@, TemplateValueView::Text(id)),
        ("fields"@, TemplateValueView::Records(field_records(members))),
        ("indent_level"@, TemplateValueView::Number(level)),
    ]
}

/// The context of the `enum` template.
pub open spec fn enum_context(id: Seq<char>, enumerators: Seq<Seq<char>>, level: nat) -> Seq<
    (Seq<char>, TemplateValueView),
> {
    seq![
        ("enum_name"@, TemplateValueView::Text(id)),
        ("variants"@, TemplateValueView::Texts(enumerators)),
        ("indent_level"@, TemplateValueView::Number(level)),
    ]
}

/// A case label as text: its expression, or `default`.
pub open spec fn label_text(label: SwitchLabelView) -> Seq<char> {
    match label {
        SwitchLabelView::Label(expr) => expr_text(expr),
        SwitchLabelView::Default => "default"@,
    }
}

/// The record of one label of a union case: the label, and the name and type
/// of the case's field.
pub open spec fn label_record(case: SwitchCaseView, index: int) -> Seq<(Seq<char>, Seq<char>)> {
    seq![
        ("name"@, label_text(case.labels[index])),
        ("element_id"@, case.elem_spec.id),
        ("element_type"@, type_text(case.elem_spec.type_spec)),
    ]
}

/// The records of the first `count` labels of a union case.
pub open spec fn case_records(case: SwitchCaseView, count: nat) -> Seq<Seq<(Seq<char>, Seq<char>)>>
    decreases count,
{
    if count == 0 || count > case.labels.len() {
        Seq::empty()
    } else {
        case_records(case, (count - 1) as nat).push(label_record(case, count - 1))
    }
}

/// The records of the first `count` cases of a union: one for each label of
/// each case, in order.
pub open spec fn union_records(cases: Seq<SwitchCaseView>, count: nat) -> Seq<
    Seq<(Seq<char>, Seq<char>)>,
>
    decreases count,
{
    if count == 0 || count > cases.len() {
        Seq::empty()
    } else {
        union_records(cases, (count - 1) as nat) + case_records(
            cases[count - 1],
            cases[count - 1].labels.len(),
        )
    }
}

/// The context of the `union_switch` template.
pub open spec fn union_context(id: Seq<char>, cases: Seq<SwitchCaseView>, level: nat) -> Seq<
    (Seq<char>, TemplateValueView),
> {
    seq![
        ("union_name"@, TemplateValueView::Text(id)),
        ("union_members"@, TemplateValueView::Records(union_records(cases, cases.len()))),
        ("indent_level"@, TemplateValueView::Number(level)),
    ]
}

/// The context of the `const` template.
pub open spec fn const_context(dcl: ConstDclView, level: nat) -> Seq<
    (Seq<char>, TemplateValueView),
> {
    seq![
        ("const_name"@, TemplateValueView::Text(dcl.id)),
        ("const_type"@, TemplateValueView::Text(type_text(dcl.typedcl))),
        ("const_value"@, TemplateValueView::Text(expr_text(dcl.value))),
        ("indent_level"@, TemplateValueView::Number(level)),
    ]
}

/// The context of the `module` template.
pub open spec fn module_context(id: Seq<char>, body: Seq<char>, level: nat) -> Seq<
    (Seq<char>, TemplateValueView),
> {
    seq![
        ("module_name"@, TemplateValueView::Text(id)),
        ("module_information"@, TemplateValueView::Text(body)),
        ("indent_level"@, TemplateValueView::Number(level)),
    ]
}

/// A type declaration as target source text: what the template of its kind
/// gives for its context; a missing declaration is the empty text.
pub open spec fn type_dcl_text(dcl: TypeDclView, level: nat, templates: TemplateSetView) -> Result<
    Seq<char>,
    RenderFailure,
> {
    match dcl {
        TypeDclView::Missing => Ok(Seq::empty()),
        TypeDclView::TypeDcl(id, type_spec) => rendered(
            template_output(templates.typedef_template, typedef_context(id, type_spec, level)),
        ),
        TypeDclView::StructDcl(id, members) => rendered(
            template_output(templates.struct_template, struct_context(id, members, level)),
        ),
        TypeDclView::UnionDcl(id, _, cases) => rendered(
            template_output(templates.union_switch_template, union_context(id, cases, level)),
        ),
        TypeDclView::EnumDcl(id, enumerators) => rendered(
            template_output(templates.enum_template, enum_context(id, enumerators, level)),
        ),
    }
}

/// A constant declaration as target source text.
pub open spec fn const_dcl_text(dcl: ConstDclView, level: nat, templates: TemplateSetView) -> Result<
    Seq<char>,
    RenderFailure,
> {
    rendered(template_output(templates.const_template, const_context(dcl, level)))
}

/// The first `count` types of a module, each followed by a line break, up to
/// the first that fails.
pub open spec fn types_text(
    types: Seq<(Seq<char>, TypeDclView)>,
    count: nat,
    level: nat,
    templates: TemplateSetView,
) -> Result<Seq<char>, RenderFailure>
    decreases count,
{
    if count == 0 || count > types.len() {
        Ok(Seq::empty())
    } else {
        match types_text(types, (count - 1) as nat, level, templates) {
            Err(failure) => Err(failure),
            Ok(done) => match type_dcl_text(types[count - 1].1, level, templates) {
                Err(failure) => Err(failure),
                Ok(text) => Ok(done + text + "\n"@),
            },
        }
    }
}

/// The first `count` constants of a module, each followed by a line break, up
/// to the first that fails.
pub open spec fn consts_text(
    constants: Seq<(Seq<char>, ConstDclView)>,
    count: nat,
    level: nat,
    templates: TemplateSetView,
) -> Result<Seq<char>, RenderFailure>
    decreases count,
{
    if count == 0 || count > constants.len() {
        Ok(Seq::empty())
    } else {
        match consts_text(constants, (count - 1) as nat, level, templates) {
            Err(failure) => Err(failure),
            Ok(done) => match const_dcl_text(constants[count - 1].1, level, templates) {
                Err(failure) => Err(failure),
                Ok(text) => Ok(done + text + "\n"@),
            },
        }
    }
}

/// The level of what a module holds: one deeper than the module where it has
/// a name, the module's own level for the root.
pub open spec fn inner_level(module: ModuleView, level: nat) -> nat {
    if module.id is Some {
        level + 1
    } else {
        level
    }
}

/// What a module holds, as text: its own imports; for a named module the two
/// standard imports; then its types, its sub-modules and its constants, each
/// followed by a line break.
pub open spec fn body_text(
    module: ModuleView,
    level: nat,
    types: Seq<char>,
    modules: Seq<char>,
    constants: Seq<char>,
) -> Seq<char> {
    uses_text(module.uses, module.uses.len(), level) + (if module.id is Some {
        imports_text(inner_level(module, level))
    } else {
        Seq::empty()
    }) + types + modules + constants
}

/// A module as target source text.
///
/// The root is what it holds. A named module is what the `module` template
/// gives for its name, what it holds and its level; what it holds stands one
/// level deeper. A level that no machine integer can count is a failure, and
/// so is the first failure met among the types, the sub-modules and the
/// constants, in that order.
pub open spec fn module_text(module: ModuleView, level: nat, templates: TemplateSetView) -> Result<
    Seq<char>,
    RenderFailure,
>
    decreases module, 0nat,
{
    let inner = inner_level(module, level);
    if inner > usize::MAX {
        Err(RenderFailure::NestingTooDeep)
    } else {
        match types_text(module.types, module.types.len(), inner, templates) {
            Err(failure) => Err(failure),
            Ok(types) => match modules_text(
                module.modules,
                module.modules.len(),
                inner,
                templates,
            ) {
                Err(failure) => Err(failure),
                Ok(modules) => match consts_text(
                    module.constants,
                    module.constants.len(),
                    inner,
                    templates,
                ) {
                    Err(failure) => Err(failure),
                    Ok(constants) => {
                        let body = body_text(module, level, types, modules, constants);
                        match module.id {
                            Some(id) => rendered(
                                template_output(
                                    templates.module_template,
                                    module_context(id, body, level),
                                ),
                            ),
                            None => Ok(body),
                        }
                    },
                },
            },
        }
    }
}

/// The first `count` sub-modules of a module, each followed by a line break,
/// up to the first that fails.
pub open spec fn modules_text(
    modules: Seq<(Seq<char>, ModuleView)>,
    count: nat,
    level: nat,
    templates: TemplateSetView,
) -> Result<Seq<char>, RenderFailure>
    decreases modules, count,
{
    if count == 0 || count > modules.len() {
        Ok(Seq::empty())
    } else {
        match modules_text(modules, (count - 1) as nat, level, templates) {
            Err(failure) => Err(failure),
            Ok(done) => match module_text(modules[count - 1].1, level, templates) {
                Err(failure) => Err(failure),
                Ok(text) => Ok(done + text + "\n"@),
            },
        }
    }
}

/// The view of what a renderer returned.
pub open spec fn render_outcome(result: Result<String, RenderError>) -> Result<
    Seq<char>,
    RenderFailure,
> {
    match result {
        Ok(text) => Ok(text@),
        Err(error) => Err(error@),
    }
}

/// Appends one import at the given level to `out`.
fn push_import(out: &mut String, level: usize, import: &str)
    ensures
        final(out)@ == old(out)@ + import_text(level as nat, import@),
{
    push_repeated(out, "    ", level);
    out.append("#[allow(unused_imports)]");
    out.append("\n");
    push_repeated(out, "    ", level);
    out.append(import);
    out.append("\n");
    assert(out@ =~= old(out)@ + import_text(level as nat, import@));
}

/// Renders a template and tells the engine's failure apart from a text.
pub fn render_with(source: &str, context: &Vec<(String, TemplateValue)>) -> (result: Result<
    String,
    RenderError,
>)
    ensures
        render_outcome(result) == rendered(template_output(source@, context_view(context@))),
{
    match render_template(source, context) {
        Ok(text) => Ok(text),
        Err(error) => Err(RenderError::Template(error)),
    }
}

/// A named text of a context.
fn text_entry(name: &str, value: String) -> (entry: (String, TemplateValue))
    ensures
        entry.0@ == name@,
        entry.1@ == TemplateValueView::Text(value@),
{
    (name.to_owned(), TemplateValue::Text(value))
}

/// The indent level of a context.
fn level_entry(level: usize) -> (entry: (String, TemplateValue))
    ensures
        entry.0@ == "indent_level"@,
        entry.1@ == TemplateValueView::Number(level as nat),
{
    ("indent_level".to_owned(), TemplateValue::Number(level))
}

/// A named text of a record.
fn record_entry(name: &str, value: String) -> (entry: (String, String))
    ensures
        entry.0@ == name@,
        entry.1@ == value@,
{
    (name.to_owned(), value)
}

/// The records of the members of a structure.
fn build_field_records(members: &Vec<IdlStructMember>) -> (records: Vec<Vec<(String, String)>>)
    ensures
        record_views(records@) == field_records(member_views(members@)),
{
    let mut records: Vec<Vec<(String, String)>> = Vec::new();
    let mut i: usize = 0;
    while i < members.len()
        invariant
            0 <= i <= members.len(),
            records@.len() == i,
            forall|k: int|
                0 <= k < i ==> record_view((#[trigger] records@[k])@) == field_record(
                    members@[k]@,
                ),
        decreases members.len() - i,
    {
        let member = &members[i];
        let record = vec![
            record_entry("name", member.id.clone()),
            record_entry("type_str", member.type_spec.to_string()),
        ];
        assert(record_view(record@) =~= field_record(member@));
        records.push(record);
        i = i + 1;
    }
    assert(record_views(records@) =~= field_records(member_views(members@)));
    records
}

/// A case label as text.
fn label_to_string(label: &IdlSwitchLabel) -> (text: String)
    ensures
        text@ == label_text(label@),
{
    match label {
        IdlSwitchLabel::Label(expr) => expr.to_string(),
        IdlSwitchLabel::Default => "default".to_owned(),
    }
}

/// The records of the cases of a union.
fn build_union_records(cases: &Vec<IdlSwitchCase>) -> (records: Vec<Vec<(String, String)>>)
    ensures
        record_views(records@) == union_records(case_views(cases@), cases@.len() as nat),
{
    let ghost views = case_views(cases@);
    let mut records: Vec<Vec<(String, String)>> = Vec::new();
    let mut i: usize = 0;
    assert(record_views(records@) =~= union_records(views, 0));
    while i < cases.len()
        invariant
            0 <= i <= cases.len(),
            views == case_views(cases@),
            record_views(records@) == union_records(views, i as nat),
        decreases cases.len() - i,
    {
        let case = &cases[i];
        let ghost done = union_records(views, i as nat);
        let mut j: usize = 0;
        assert(record_views(records@) =~= done + case_records(case@, 0));
        while j < case.labels.len()
            invariant
                0 <= j <= case.labels.len(),
                case@.labels.len() == case.labels@.len(),
                record_views(records@) == done + case_records(case@, j as nat),
            decreases case.labels.len() - j,
        {
            let ghost before = record_views(records@);
            let record = vec![
                record_entry("name", label_to_string(&case.labels[j])),
                record_entry("element_id", case.elem_spec.id.clone()),
                record_entry("element_type", case.elem_spec.type_spec.to_string()),
            ];
            assert(record_view(record@) =~= label_record(case@, j as int));
            records.push(record);
            assert(record_views(records@) =~= before.push(label_record(case@, j as int)));
            j = j + 1;
            assert(record_views(records@) =~= done + case_records(case@, j as nat));
        }
        i = i + 1;
    }
    records
}

impl IdlTypeDcl {
    /// Renders the declaration at the given indent level with the template of
    /// its kind.
    pub fn render(&self, templates: &TemplateSet, level: usize) -> (result: Result<
        String,
        RenderError,
    >)
        ensures
            render_outcome(result) == type_dcl_text(self@, level as nat, templates@),
    {
        match &self.0 {
            IdlTypeDclKind::TypeDcl(id, type_spec) => {
                let context = vec![
                    text_entry("typedef_name", id.clone()),
                    text_entry("typedef_type", type_spec.to_string()),
                    level_entry(level),
                ];
                assert(context_view(context@) =~= typedef_context(
                    id@,
                    type_spec@,
                    level as nat,
                ));
                render_with(templates.typedef_template.as_str(), &context)
            },
            IdlTypeDclKind::StructDcl(id, members) => {
                let context = vec![
                    text_entry("struct_name", id.clone()),
                    ("fields".to_owned(), TemplateValue::Records(build_field_records(members))),
                    level_entry(level),
                ];
                assert(context_view(context@) =~= struct_context(
                    id@,
                    member_views(members@),
                    level as nat,
                ));
                render_with(templates.struct_template.as_str(), &context)
            },
            IdlTypeDclKind::EnumDcl(id, enumerators) => {
                let context = vec![
                    text_entry("enum_name", id.clone()),
                    ("variants".to_owned(), TemplateValue::Texts(clone_strings(enumerators))),
                    level_entry(level),
                ];
                assert(context_view(context@) =~= enum_context(
                    id@,
                    texts(enumerators@),
                    level as nat,
                ));
                render_with(templates.enum_template.as_str(), &context)
            },
            IdlTypeDclKind::UnionDcl(id, _, cases) => {
                let context = vec![
                    text_entry("union_name", id.clone()),
                    (
                        "union_members".to_owned(),
                        TemplateValue::Records(build_union_records(cases)),
                    ),
                    level_entry(level),
                ];
                assert(context_view(context@) =~= union_context(
                    id@,
                    case_views(cases@),
                    level as nat,
                ));
                render_with(templates.union_switch_template.as_str(), &context)
            },
            IdlTypeDclKind::Missing => Ok(String::new()),
        }
    }
}

impl IdlConstDcl {
    /// Renders the constant at the given indent level with the `const`
    /// template.
    pub fn render(&self, templates: &TemplateSet, level: usize) -> (result: Result<
        String,
        RenderError,
    >)
        ensures
            render_outcome(result) == const_dcl_text(self@, level as nat, templates@),
    {
        let context = vec![
            text_entry("const_name", self.id.clone()),
            text_entry("const_type", self.typedcl.to_string()),
            text_entry("const_value", self.value.to_string()),
            level_entry(level),
        ];
        assert(context_view(context@) =~= const_context(self@, level as nat));
        render_with(templates.const_template.as_str(), &context)
    }
}

impl IdlModule {
    /// Renders the types of this module at the given level.
    fn render_types(&self, out: &mut String, templates: &TemplateSet, level: usize) -> (result:
        Result<(), RenderError>)
        ensures
            match result {
                Ok(_) => match types_text(
                    self@.types,
                    self@.types.len(),
                    level as nat,
                    templates@,
                ) {
                    Ok(text) => final(out)@ == old(out)@ + text,
                    Err(_) => false,
                },
                Err(error) => types_text(self@.types, self@.types.len(), level as nat, templates@)
                    == Err::<Seq<char>, RenderFailure>(error@),
            },
    {
        let dcls = self.type_dcls();
        let ghost types = self@.types;
        let mut i: usize = 0;
        assert(out@ =~= old(out)@ + Seq::<char>::empty());
        while i < dcls.len()
            invariant
                0 <= i <= dcls.len(),
                types == self@.types,
                dcls@.len() == types.len(),
                forall|k: int| 0 <= k < dcls@.len() ==> (#[trigger] dcls@[k])@ == types[k].1,
                match types_text(types, i as nat, level as nat, templates@) {
                    Ok(text) => out@ == old(out)@ + text,
                    Err(_) => false,
                },
            decreases dcls.len() - i,
        {
            let ghost done = types_text(types, i as nat, level as nat, templates@)->Ok_0;
            match dcls[i].render(templates, level) {
                Ok(text) => {
                    out.append(text.as_str());
                    out.append("\n");
                    assert(out@ =~= old(out)@ + (done + text@ + "\n"@));
                },
                Err(error) => {
                    proof {
                        lemma_types_failure(
                            types,
                            (i + 1) as nat,
                            types.len(),
                            level as nat,
                            templates@,
                        );
                    }
                    return Err(error);
                },
            }
            i = i + 1;
        }
        Ok(())
    }

    /// Renders the constants of this module at the given level.
    fn render_consts(&self, out: &mut String, templates: &TemplateSet, level: usize) -> (result:
        Result<(), RenderError>)
        ensures
            match result {
                Ok(_) => match consts_text(
                    self@.constants,
                    self@.constants.len(),
                    level as nat,
                    templates@,
                ) {
                    Ok(text) => final(out)@ == old(out)@ + text,
                    Err(_) => false,
                },
                Err(error) => consts_text(
                    self@.constants,
                    self@.constants.len(),
                    level as nat,
                    templates@,
                ) == Err::<Seq<char>, RenderFailure>(error@),
            },
    {
        let dcls = self.const_dcls();
        let ghost constants = self@.constants;
        let mut i: usize = 0;
        assert(out@ =~= old(out)@ + Seq::<char>::empty());
        while i < dcls.len()
            invariant
                0 <= i <= dcls.len(),
                constants == self@.constants,
                dcls@.len() == constants.len(),
                forall|k: int| 0 <= k < dcls@.len() ==> (#[trigger] dcls@[k])@ == constants[k].1,
                match consts_text(constants, i as nat, level as nat, templates@) {
                    Ok(text) => out@ == old(out)@ + text,
                    Err(_) => false,
                },
            decreases dcls.len() - i,
        {
            let ghost done = consts_text(constants, i as nat, level as nat, templates@)->Ok_0;
            match dcls[i].render(templates, level) {
                Ok(text) => {
                    out.append(text.as_str());
                    out.append("\n");
                    assert(out@ =~= old(out)@ + (done + text@ + "\n"@));
                },
                Err(error) => {
                    proof {
                        lemma_consts_failure(
                            constants,
                            (i + 1) as nat,
                            constants.len(),
                            level as nat,
                            templates@,
                        );
                    }
                    return Err(error);
                },
            }
            i = i + 1;
        }
        Ok(())
    }

    /// Renders the sub-modules of this module at the given level.
    fn render_modules(&self, out: &mut String, templates: &TemplateSet, level: usize) -> (result:
        Result<(), RenderError>)
        ensures
            match result {
                Ok(_) => match modules_text(
                    self@.modules,
                    self@.modules.len(),
                    level as nat,
                    templates@,
                ) {
                    Ok(text) => final(out)@ == old(out)@ + text,
                    Err(_) => false,
                },
                Err(error) => modules_text(
                    self@.modules,
                    self@.modules.len(),
                    level as nat,
                    templates@,
                ) == Err::<Seq<char>, RenderFailure>(error@),
            },
        decreases self@, 0nat,
    {
        let children = self.submodules();
        let ghost modules = self@.modules;
        let mut i: usize = 0;
        assert(out@ =~= old(out)@ + Seq::<char>::empty());
        while i < children.len()
            invariant
                0 <= i <= children.len(),
                modules == self@.modules,
                children@.len() == modules.len(),
                forall|k: int| 0 <= k < children@.len() ==> (#[trigger] children@[k])@ == modules[k].1,
                match modules_text(modules, i as nat, level as nat, templates@) {
                    Ok(text) => out@ == old(out)@ + text,
                    Err(_) => false,
                },
            decreases children.len() - i,
        {
            let ghost done = modules_text(modules, i as nat, level as nat, templates@)->Ok_0;
            match children[i].render(templates, level) {
                Ok(text) => {
                    out.append(text.as_str());
                    out.append("\n");
                    assert(out@ =~= old(out)@ + (done + text@ + "\n"@));
                },
                Err(error) => {
                    proof {
                        lemma_modules_failure(
                            modules,
                            (i + 1) as nat,
                            modules.len(),
                            level as nat,
                            templates@,
                        );
                    }
                    return Err(error);
                },
            }
            i = i + 1;
        }
        Ok(())
    }

    /// Appends this module's own imports, at the given level, to `out`.
    fn render_uses(&self, out: &mut String, level: usize)
        ensures
            final(out)@ == old(out)@ + uses_text(self@.uses, self@.uses.len(), level as nat),
    {
        let ghost uses = self@.uses;
        let mut i: usize = 0;
        assert(out@ =~= old(out)@ + Seq::<char>::empty());
        while i < self.uses.len()
            invariant
                0 <= i <= self.uses.len(),
                uses == texts(self.uses@),
                out@ == old(out)@ + uses_text(uses, i as nat, level as nat),
            decreases self.uses.len() - i,
        {
            let ghost done = uses_text(uses, i as nat, level as nat);
            push_import(out, level, self.uses[i].as_str());
            assert(out@ =~= old(out)@ + (done + import_text(level as nat, uses[i as int])));
            i = i + 1;
        }
    }

    /// Renders the module with all it holds; `level` is the indent level at
    /// which the module itself stands.
    pub fn render(&self, templates: &TemplateSet, level: usize) -> (result: Result<
        String,
        RenderError,
    >)
        ensures
            render_outcome(result) == module_text(self@, level as nat, templates@),
        decreases self@, 1nat,
    {
        let inner = match &self.id {
            Some(_) => {
                if level == usize::MAX {
                    return Err(RenderError::NestingTooDeep);
                }
                level + 1
            },
            None => level,
        };
        let mut types = String::new();
        match self.render_types(&mut types, templates, inner) {
            Ok(_) => {},
            Err(error) => {
                return Err(error);
            },
        }
        let mut modules = String::new();
        match self.render_modules(&mut modules, templates, inner) {
            Ok(_) => {},
            Err(error) => {
                return Err(error);
            },
        }
        let mut constants = String::new();
        match self.render_consts(&mut constants, templates, inner) {
            Ok(_) => {},
            Err(error) => {
                return Err(error);
            },
        }
        let mut body = String::new();
        self.render_uses(&mut body, level);
        match &self.id {
            Some(_) => {
                push_import(&mut body, inner, "use std::vec::Vec;");
                push_import(&mut body, inner, "use serde_derive::{Serialize, Deserialize};");
            },
            None => {},
        }
        body.append(types.as_str());
        body.append(modules.as_str());
        body.append(constants.as_str());
        assert(body@ =~= body_text(self@, level as nat, types@, modules@, constants@));
        match &self.id {
            Some(id) => {
                let context = vec![
                    text_entry("module_name", id.clone()),
                    text_entry("module_information", body),
                    level_entry(level),
                ];
                assert(context_view(context@) =~= module_context(id@, body@, level as nat));
                render_with(templates.module_template.as_str(), &context)
            },
            None => Ok(body),
        }
    }
}

/// A failure met among the first types is the failure of the whole.
proof fn lemma_types_failure(
    types: Seq<(Seq<char>, TypeDclView)>,
    count: nat,
    total: nat,
    level: nat,
    templates: TemplateSetView,
)
    requires
        count <= total <= types.len(),
        types_text(types, count, level, templates) is Err,
    ensures
        types_text(types, total, level, templates) == types_text(types, count, level, templates),
    decreases total,
{
    if count < total {
        lemma_types_failure(types, count, (total - 1) as nat, level, templates);
    }
}

/// A failure met among the first constants is the failure of the whole.
proof fn lemma_consts_failure(
    constants: Seq<(Seq<char>, ConstDclView)>,
    count: nat,
    total: nat,
    level: nat,
    templates: TemplateSetView,
)
    requires
        count <= total <= constants.len(),
        consts_text(constants, count, level, templates) is Err,
    ensures
        consts_text(constants, total, level, templates) == consts_text(
            constants,
            count,
            level,
            templates,
        ),
    decreases total,
{
    if count < total {
        lemma_consts_failure(constants, count, (total - 1) as nat, level, templates);
    }
}

/// A failure met among the first sub-modules is the failure of the whole.
proof fn lemma_modules_failure(
    modules: Seq<(Seq<char>, ModuleView)>,
    count: nat,
    total: nat,
    level: nat,
    templates: TemplateSetView,
)
    requires
        count <= total <= modules.len(),
        modules_text(modules, count, level, templates) is Err,
    ensures
        modules_text(modules, total, level, templates) == modules_text(
            modules,
            count,
            level,
            templates,
        ),
    decreases total,
{
    if count < total {
        lemma_modules_failure(modules, count, (total - 1) as nat, level, templates);
    }
}

} // verus!
