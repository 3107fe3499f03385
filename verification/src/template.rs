use vstd::prelude::*;

use crate::ast::AstNode;
use crate::discover::{discover_variables, template_variables};
use crate::engine::{
    context_of_map,
    engine_ast,
    json_object_of,
    json_object_ok,
    parse_engine,
    parse_ok,
    render_template,
};

verus! {

/// A successfully parsed template: the source text it was built from, the
/// engine that parsed it (kept for rendering), and the crate's own model
/// of its syntax tree (read by variable discovery).
pub struct Template {
    source: String,
    engine: tera::Tera,
    nodes: Vec<AstNode>,
}

impl Template {
    /// The source text this template was built from.
    pub closed spec fn spec_source(&self) -> Seq<char> {
        self.source@
    }

    /// The crate's model of the parsed syntax tree.
    pub closed spec fn spec_nodes(&self) -> Seq<AstNode> {
        self.nodes@
    }

    /// Parses `source` with the engine.  It succeeds exactly when the
    /// engine parses the source; on success the template keeps the source
    /// text unchanged, on failure the engine's error text is returned.
    pub fn init(source: String) -> (r: Result<Template, String>)
        ensures
            r matches Ok(t) ==> t.spec_source() == source@,
            r matches Ok(_) <==> parse_ok(source@),
    {
        match parse_engine(source.as_str()) {
            Ok(engine) => {
                let nodes = engine_ast(&engine);
                Ok(Template { source, engine, nodes })
            },
            Err(e) => Err(e),
        }
    }

    /// The free variable names of the template: every identifier its tree
    /// references but does not itself bind, in first-occurrence order of a
    /// left-to-right depth-first walk, each exactly once.
    pub fn get_variables(&self) -> (r: Vec<String>)
        ensures
            r.deep_view() == template_variables(self.spec_nodes()),
    {
        discover_variables(&self.nodes)
    }

    /// The free variable names, as `get_variables`; this is the accessor
    /// the browser surface exposes.
    pub fn variables(&self) -> (r: Vec<String>)
        ensures
            r.deep_view() == template_variables(self.spec_nodes()),
    {
        self.get_variables()
    }

    /// The template's source text, as it was handed to `init`.
    pub fn source(&self) -> (r: String)
        ensures
            r@ == self.spec_source(),
    {
        self.source.clone()
    }

    /// Renders the template against an already-built context.  Rendering
    /// is the engine's work: success and output are its decision, and on
    /// failure its error text is returned.  An identifier missing from
    /// the context is such a failure: the engine has no mode that renders
    /// a missing variable as empty text.
    pub fn execute_with_context(&self, ctx: &tera::Context) -> Result<String, String> {
        render_template(&self.engine, ctx)
    }

    /// Builds a context from the JSON-stringified object `val`, then
    /// renders the template against it.  A `val` that is not the text of
    /// a JSON object is always an error; otherwise the render decides.
    pub fn execute(&self, val: String) -> (r: Result<String, String>)
        ensures
            !json_object_ok(val@) ==> r matches Err(_),
    {
        match generate_context(val) {
            Ok(ctx) => self.execute_with_context(&ctx),
            Err(e) => Err(e),
        }
    }

    /// Parses `source` and renders it against the JSON-stringified object
    /// `val`, in one step.  A source the engine does not parse, or a
    /// `val` that is not the text of a JSON object, is always an error;
    /// otherwise the render decides.
    pub fn compile_and_execute(source: String, val: String) -> (r: Result<String, String>)
        ensures
            !parse_ok(source@) ==> r matches Err(_),
            !json_object_ok(val@) ==> r matches Err(_),
    {
        match Template::init(source) {
            Ok(t) => t.execute(val),
            Err(e) => Err(e),
        }
    }
}

/// Builds a rendering context from a JSON-stringified object.  It
/// succeeds exactly when the text parses as a JSON object with string
/// keys: the engine accepts every such map, and on a parse failure that
/// step's error text is returned.
pub fn generate_context(val: String) -> (r: Result<tera::Context, String>)
    ensures
        r matches Ok(_) <==> json_object_ok(val@),
{
    match json_object_of(val.as_str()) {
        Ok(map) => context_of_map(map),
        Err(e) => Err(e),
    }
}

/// Parses `source` as a template, builds a context from the
/// JSON-stringified object `val`, and renders the one against the other;
/// the first failing step's error text is returned.  A source the engine
/// does not parse, or a `val` that is not the text of a JSON object, is
/// always an error; otherwise the render decides.
pub fn compile_and_execute(source: String, val: String) -> (r: Result<String, String>)
    ensures
        !parse_ok(source@) ==> r matches Err(_),
        !json_object_ok(val@) ==> r matches Err(_),
{
    match Template::init(source) {
        Ok(t) => {
            match generate_context(val) {
                Ok(ctx) => t.execute_with_context(&ctx),
                Err(e) => Err(e),
            }
        },
        Err(e) => Err(e),
    }
}

} // verus!
