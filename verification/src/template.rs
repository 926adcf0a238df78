//! The template engine: the values handed to a template, the set of templates
//! of a generation run, and the one call that renders a template.

use vstd::prelude::*;
use vstd::string::*;
use std::collections::BTreeMap;
use minijinja::{Environment, Value};
use crate::text::texts;

verus! {

/// A value of a template's context.
#[derive(Debug)]
pub enum TemplateValue {
    Text(String),
    Number(usize),
    Texts(Vec<String>),
    /// A list of records, each a list of named texts.
    Records(Vec<Vec<(String, String)>>),
}

/// The mathematical content of a context value.
pub enum TemplateValueView {
    Text(Seq<char>),
    Number(nat),
    Texts(Seq<Seq<char>>),
    Records(Seq<Seq<(Seq<char>, Seq<char>)>>),
}

/// The view of a record.
pub open spec fn record_view(record: Seq<(String, String)>) -> Seq<(Seq<char>, Seq<char>)> {
    Seq::new(record.len(), |i: int| (record[i].0@, record[i].1@))
}

/// The views of a list of records.
pub open spec fn record_views(records: Seq<Vec<(String, String)>>) -> Seq<
    Seq<(Seq<char>, Seq<char>)>,
> {
    Seq::new(records.len(), |i: int| record_view(records[i]@))
}

impl View for TemplateValue {
    type V = TemplateValueView;

    open spec fn view(&self) -> TemplateValueView {
        match self {
            TemplateValue::Text(text) => TemplateValueView::Text(text@),
            TemplateValue::Number(number) => TemplateValueView::Number(*number as nat),
            TemplateValue::Texts(items) => TemplateValueView::Texts(texts(items@)),
            TemplateValue::Records(records) => TemplateValueView::Records(record_views(records@)),
        }
    }
}

/// The view of a context: its names and values in order.
pub open spec fn context_view(context: Seq<(String, TemplateValue)>) -> Seq<
    (Seq<char>, TemplateValueView),
> {
    Seq::new(context.len(), |i: int| (context[i].0@, context[i].1@))
}

/// What the template engine renders from a template's source and a context:
/// the text, or nothing where it rejects the template or the context.
pub uninterp spec fn template_output(
    source: Seq<char>,
    context: Seq<(Seq<char>, TemplateValueView)>,
) -> Option<Seq<char>>;

/// `minijinja::Environment::new` and `Environment::render_str`: the template
/// `source` rendered in a fresh environment, with the context handed over as
/// a map from each name to its value (a text, a number, a list of texts or a
/// list of maps from name to text).
#[verifier::external_body]
pub(crate) fn render_template(source: &str, context: &Vec<(String, TemplateValue)>) -> (result:
    Result<String, minijinja::Error>)
    ensures
        match result {
            Ok(text) => template_output(source@, context_view(context@)) == Some(text@),
            Err(_) => template_output(source@, context_view(context@)) is None,
        },
{
    let fields = context.iter().map(
        |(name, value)|
            (name.clone(), match value {
                TemplateValue::Text(text) => Value::from(text.as_str()),
                TemplateValue::Number(number) => Value::from(*number),
                TemplateValue::Texts(items) => Value::from(items.clone()),
                TemplateValue::Records(records) => records.iter().map(
                    |record| record.iter().cloned().collect::<BTreeMap<String, String>>(),
                ).collect(),
            }),
    );
    Environment::new().render_str(source, Value::from(fields.collect::<BTreeMap<String, Value>>()))
}

/// The sources of the six templates of a generation run.
#[derive(Debug)]
pub struct TemplateSet {
    pub module_template: String,
    pub struct_template: String,
    pub enum_template: String,
    pub union_switch_template: String,
    pub typedef_template: String,
    pub const_template: String,
}

/// The mathematical content of a template set.
pub struct TemplateSetView {
    pub module_template: Seq<char>,
    pub struct_template: Seq<char>,
    pub enum_template: Seq<char>,
    pub union_switch_template: Seq<char>,
    pub typedef_template: Seq<char>,
    pub const_template: Seq<char>,
}

impl View for TemplateSet {
    type V = TemplateSetView;

    open spec fn view(&self) -> TemplateSetView {
        TemplateSetView {
            module_template: self.module_template@,
            struct_template: self.struct_template@,
            enum_template: self.enum_template@,
            union_switch_template: self.union_switch_template@,
            typedef_template: self.typedef_template@,
            const_template: self.const_template@,
        }
    }
}

impl TemplateSet {
    /// The set of the six given template sources.
    pub fn new(
        module_template: &str,
        struct_template: &str,
        enum_template: &str,
        union_switch_template: &str,
        typedef_template: &str,
        const_template: &str,
    ) -> (templates: TemplateSet)
        ensures
            templates@ == (TemplateSetView {
                module_template: module_template@,
                struct_template: struct_template@,
                enum_template: enum_template@,
                union_switch_template: union_switch_template@,
                typedef_template: typedef_template@,
                const_template: const_template@,
            }),
    {
        TemplateSet {
            module_template: module_template.to_owned(),
            struct_template: struct_template.to_owned(),
            enum_template: enum_template.to_owned(),
            union_switch_template: union_switch_template.to_owned(),
            typedef_template: typedef_template.to_owned(),
            const_template: const_template.to_owned(),
        }
    }
}

} // verus!
