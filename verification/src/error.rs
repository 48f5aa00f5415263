use vstd::prelude::*;

verus! {

/// Unified error type for all conversions.
#[derive(Debug)]
pub enum CyphrError {
    /// A general mapping error with a freeform message.
    Mapping(String),
    /// A required property was not found on a node or relationship.
    MissingProperty { property: String, label: String },
    /// A required field was not found in a row.
    MissingField { field: String, struct_name: String },
    /// A value variant did not match the expected Rust type.
    TypeMismatch { expected: String, got: String, context: String },
    /// Wraps an inner error with additional context.
    Context { context: String, source: Box<CyphrError> },
    /// An error from the underlying driver.
    Neo4j(neo4rs::Error),
}

/// The driver's error type, carried through unchanged.
#[verifier::external_type_specification]
#[verifier::external_body]
pub struct ExDriverError(neo4rs::Error);

/// A driver error becomes a `Neo4j` error.
impl From<neo4rs::Error> for CyphrError {
    fn from(e: neo4rs::Error) -> (r: CyphrError) {
        CyphrError::Neo4j(e)
    }
}

impl vstd::std_specs::convert::FromSpecImpl<neo4rs::Error> for CyphrError {
    open spec fn obeys_from_spec() -> bool {
        true
    }

    open spec fn from_spec(e: neo4rs::Error) -> CyphrError {
        CyphrError::Neo4j(e)
    }
}

/// Renders a driver error with its `Display` impl (`format!("{}", e)`).
/// Nothing is stated of the text: the driver builds some of its messages
/// from operating-system error strings, which depend on the process locale.
#[verifier::external_body]
pub(crate) fn driver_error_text(e: &neo4rs::Error) -> String {
    format!("{}", e)
}

/// `t` starts with `p`.
pub open spec fn starts_with(t: Seq<char>, p: Seq<char>) -> bool {
    t.len() >= p.len() && t.take(p.len() as int) == p
}

/// The fixed text of an error: its whole rendering for every variant but a
/// driver error, of which it is the text before the driver's message.
pub open spec fn message_of(e: CyphrError) -> Seq<char>
    decreases e,
{
    match e {
        CyphrError::Mapping(m) => "mapping error: "@ + m@,
        CyphrError::MissingProperty { property, label } =>
            "missing property '"@ + property@ + "' on "@ + label@,
        CyphrError::MissingField { field, struct_name } =>
            "missing field '"@ + field@ + "' on "@ + struct_name@,
        CyphrError::TypeMismatch { expected, got, context } =>
            "type mismatch: expected "@ + expected@ + ", got "@ + got@ + " ("@ + context@ + ")"@,
        CyphrError::Context { context, source } => context@ + ": "@ + message_of(*source),
        CyphrError::Neo4j(_) => "neo4j error: "@,
    }
}

/// Whether an error chain ends in a driver error.
pub open spec fn from_driver(e: CyphrError) -> bool
    decreases e,
{
    match e {
        CyphrError::Neo4j(_) => true,
        CyphrError::Context { source, .. } => from_driver(*source),
        _ => false,
    }
}

/// Whether `t` is how `e` renders, as its `Display` form shows it: a
/// `Context` as its context, `": "`, then its source's rendering; a driver
/// error as `"neo4j error: "` followed by the driver's message (whatever it
/// says); every other variant as its fixed text.
pub open spec fn renders(e: CyphrError, t: Seq<char>) -> bool
    decreases e,
{
    match e {
        CyphrError::Context { context, source } => {
            let p = context@ + ": "@;
            starts_with(t, p) && renders(*source, t.skip(p.len() as int))
        },
        CyphrError::Neo4j(_) => starts_with(t, "neo4j error: "@),
        _ => t == message_of(e),
    }
}

/// An error chain that does not end in a driver error has exactly one
/// rendering, its fixed text.
pub proof fn lemma_renders_exact(e: CyphrError, t: Seq<char>)
    requires
        !from_driver(e),
    ensures
        renders(e, t) <==> t == message_of(e),
    decreases e,
{
    if let CyphrError::Context { context, source } = e {
        let p = context@ + ": "@;
        let n = p.len() as int;
        lemma_renders_exact(*source, t.skip(n));
        if t == message_of(e) {
            assert(t.take(n) =~= p);
            assert(t.skip(n) =~= message_of(*source));
        }
        if starts_with(t, p) && t.skip(n) == message_of(*source) {
            assert(t =~= t.take(n) + t.skip(n));
        }
    }
}

/// `e` is a `TypeMismatch` with these texts.
pub open spec fn is_type_mismatch(
    e: CyphrError,
    expected: Seq<char>,
    got: Seq<char>,
    context: Seq<char>,
) -> bool {
    e matches CyphrError::TypeMismatch { expected: x, got: g, context: c } && x@ == expected && g@
        == got && c@ == context
}

/// `e` is a `MissingProperty` with these texts.
pub open spec fn is_missing_property(e: CyphrError, property: Seq<char>, label: Seq<char>) -> bool {
    e matches CyphrError::MissingProperty { property: p, label: l } && p@ == property && l@ == label
}

/// `e` is a `MissingField` with these texts.
pub open spec fn is_missing_field(e: CyphrError, field: Seq<char>, struct_name: Seq<char>) -> bool {
    e matches CyphrError::MissingField { field: f, struct_name: s } && f@ == field && s@
        == struct_name
}

/// `e` wraps `inner` under the context text `ctx`.
pub open spec fn is_context(e: CyphrError, ctx: Seq<char>, inner: CyphrError) -> bool {
    e matches CyphrError::Context { context, source } && context@ == ctx && *source == inner
}

/// Wrapping an error in a context renders as the context, `": "`, then the
/// inner error's rendering, and only so; the inner error is kept unchanged
/// as the source.
pub proof fn lemma_context_message(inner: CyphrError, ctx: Seq<char>, wrapped: CyphrError)
    requires
        is_context(wrapped, ctx, inner),
    ensures
        forall|u: Seq<char>| #[trigger] renders(inner, u) ==> renders(wrapped, ctx + ": "@ + u),
        forall|t: Seq<char>|
            #[trigger] renders(wrapped, t) ==> starts_with(t, ctx + ": "@) && renders(
                inner,
                t.skip(ctx.len() + 2int),
            ),
        message_of(wrapped) == ctx + ": "@ + message_of(inner),
        from_driver(wrapped) == from_driver(inner),
{
    reveal_strlit(": ");
    let p = ctx + ": "@;
    assert(p.len() == ctx.len() + 2);
    assert forall|u: Seq<char>| #[trigger] renders(inner, u) implies renders(wrapped, p + u) by {
        assert((p + u).take(p.len() as int) =~= p);
        assert((p + u).skip(p.len() as int) =~= u);
    }
}

impl CyphrError {
    /// Create a `TypeMismatch` error.
    pub fn type_mismatch(expected: &str, got: &str, context: &str) -> (r: Self)
        ensures
            is_type_mismatch(r, expected@, got@, context@),
    {
        CyphrError::TypeMismatch {
            expected: expected.to_string(),
            got: got.to_string(),
            context: context.to_string(),
        }
    }

    /// Create a `MissingProperty` error.
    pub fn missing_property(property: &str, label: &str) -> (r: Self)
        ensures
            is_missing_property(r, property@, label@),
    {
        CyphrError::MissingProperty { property: property.to_string(), label: label.to_string() }
    }

    /// Create a `MissingField` error.
    pub fn missing_field(field: &str, struct_name: &str) -> (r: Self)
        ensures
            is_missing_field(r, field@, struct_name@),
    {
        CyphrError::MissingField { field: field.to_string(), struct_name: struct_name.to_string() }
    }

    /// Wrap this error with additional context, producing a `Context` error
    /// whose source is `self`.
    pub fn with_context(self, ctx: &str) -> (r: CyphrError)
        ensures
            is_context(r, ctx@, self),
    {
        CyphrError::Context { context: ctx.to_string(), source: Box::new(self) }
    }

    /// The rendered text of the error; a `Context` chain renders as
    /// `ctx: inner`, so the outermost context comes first.
    pub fn message(&self) -> (r: String)
        ensures
            renders(*self, r@),
            !from_driver(*self) ==> r@ == message_of(*self),
        decreases self,
    {
        match self {
            CyphrError::Mapping(m) => {
                proof { reveal_strlit("mapping error: "); }
                String::from_str("mapping error: ").concat(m.as_str())
            },
            CyphrError::MissingProperty { property, label } => {
                proof {
                    reveal_strlit("missing property '");
                    reveal_strlit("' on ");
                }
                String::from_str("missing property '").concat(property.as_str()).concat("' on ").concat(
                    label.as_str(),
                )
            },
            CyphrError::MissingField { field, struct_name } => {
                proof {
                    reveal_strlit("missing field '");
                    reveal_strlit("' on ");
                }
                String::from_str("missing field '").concat(field.as_str()).concat("' on ").concat(
                    struct_name.as_str(),
                )
            },
            CyphrError::TypeMismatch { expected, got, context } => {
                proof {
                    reveal_strlit("type mismatch: expected ");
                    reveal_strlit(", got ");
                    reveal_strlit(" (");
                    reveal_strlit(")");
                }
                String::from_str("type mismatch: expected ").concat(expected.as_str()).concat(
                    ", got ",
                ).concat(got.as_str()).concat(" (").concat(context.as_str()).concat(")")
            },
            CyphrError::Context { context, source } => {
                proof { reveal_strlit(": "); }
                let inner = source.message();
                let r = context.clone().concat(": ").concat(inner.as_str());
                proof {
                    let p = context@ + ": "@;
                    assert(r@.take(p.len() as int) =~= p);
                    assert(r@.skip(p.len() as int) =~= inner@);
                }
                r
            },
            CyphrError::Neo4j(e) => {
                proof { reveal_strlit("neo4j error: "); }
                let r = String::from_str("neo4j error: ").concat(driver_error_text(e).as_str());
                assert(r@.take("neo4j error: "@.len() as int) =~= "neo4j error: "@);
                r
            },
        }
    }
}

} // verus!
