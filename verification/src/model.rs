use vstd::prelude::*;

verus! {

/// The grammars a document can be parsed under.
#[derive(Debug, Hash, PartialEq, Eq, PartialOrd, Ord, Clone, Copy, Structural)]
pub enum GrammarId {
    Javascript,
    Html,
    Css,
    Liquid,
    LiquidTemplate,
}

impl GrammarId {
    /// The identifiers, in the order in which they are declared.
    pub open spec fn all() -> Seq<GrammarId> {
        seq![
            GrammarId::Javascript,
            GrammarId::Html,
            GrammarId::Css,
            GrammarId::Liquid,
            GrammarId::LiquidTemplate,
        ]
    }

    /// The identifiers, in the order in which they are declared.
    pub fn list() -> (all: Vec<GrammarId>)
        ensures
            all@ == GrammarId::all(),
    {
        let mut all: Vec<GrammarId> = Vec::new();
        all.push(GrammarId::Javascript);
        all.push(GrammarId::Html);
        all.push(GrammarId::Css);
        all.push(GrammarId::Liquid);
        all.push(GrammarId::LiquidTemplate);
        proof {
            assert(all@ =~= GrammarId::all());
        }
        all
    }
}

/// One value for each of some grammars.
#[derive(Debug, PartialEq, Eq)]
pub struct GrammarMap<V> {
    pub javascript: Option<V>,
    pub html: Option<V>,
    pub css: Option<V>,
    pub liquid: Option<V>,
    pub liquid_template: Option<V>,
}

impl<V> GrammarMap<V> {
    /// The value for a grammar, if there is one.
    pub open spec fn lookup(self, language: GrammarId) -> Option<V> {
        match language {
            GrammarId::Javascript => self.javascript,
            GrammarId::Html => self.html,
            GrammarId::Css => self.css,
            GrammarId::Liquid => self.liquid,
            GrammarId::LiquidTemplate => self.liquid_template,
        }
    }

    /// The number of grammars that have a value.
    pub open spec fn count(self) -> nat {
        (if self.javascript is Some { 1nat } else { 0nat })
            + (if self.html is Some { 1nat } else { 0nat })
            + (if self.css is Some { 1nat } else { 0nat })
            + (if self.liquid is Some { 1nat } else { 0nat })
            + (if self.liquid_template is Some { 1nat } else { 0nat })
    }

    /// The map with a value set for a grammar, in place of the one it had,
    /// if any.
    pub open spec fn with(self, language: GrammarId, value: V) -> GrammarMap<V> {
        match language {
            GrammarId::Javascript => GrammarMap { javascript: Some(value), ..self },
            GrammarId::Html => GrammarMap { html: Some(value), ..self },
            GrammarId::Css => GrammarMap { css: Some(value), ..self },
            GrammarId::Liquid => GrammarMap { liquid: Some(value), ..self },
            GrammarId::LiquidTemplate => GrammarMap { liquid_template: Some(value), ..self },
        }
    }

    /// `with` sets the value for the one grammar and keeps the others.
    pub proof fn lemma_with(self, language: GrammarId, value: V)
        ensures
            forall|other: GrammarId|
                #[trigger] self.with(language, value).lookup(other) == if other == language {
                    Some(value)
                } else {
                    self.lookup(other)
                },
    {
    }

    /// A map with no value for any grammar.
    pub fn new() -> (map: GrammarMap<V>)
        ensures
            map.javascript is None,
            map.html is None,
            map.css is None,
            map.liquid is None,
            map.liquid_template is None,
    {
        GrammarMap { javascript: None, html: None, css: None, liquid: None, liquid_template: None }
    }

    /// Sets the value for a grammar, in place of the one it had, if any.
    pub fn insert(&mut self, language: GrammarId, value: V)
        ensures
            *final(self) == old(self).with(language, value),
    {
        match language {
            GrammarId::Javascript => {
                self.javascript = Some(value);
            },
            GrammarId::Html => {
                self.html = Some(value);
            },
            GrammarId::Css => {
                self.css = Some(value);
            },
            GrammarId::Liquid => {
                self.liquid = Some(value);
            },
            GrammarId::LiquidTemplate => {
                self.liquid_template = Some(value);
            },
        }
    }

    /// The value for a grammar, if there is one.
    pub fn get(&self, language: &GrammarId) -> (value: Option<&V>)
        ensures
            match value {
                Some(v) => self.lookup(*language) == Some(*v),
                None => self.lookup(*language) is None,
            },
    {
        match language {
            GrammarId::Javascript => self.javascript.as_ref(),
            GrammarId::Html => self.html.as_ref(),
            GrammarId::Css => self.css.as_ref(),
            GrammarId::Liquid => self.liquid.as_ref(),
            GrammarId::LiquidTemplate => self.liquid_template.as_ref(),
        }
    }

    /// Whether a grammar has a value.
    pub fn contains_key(&self, language: &GrammarId) -> (present: bool)
        ensures
            present == (self.lookup(*language) is Some),
    {
        self.get(language).is_some()
    }

    /// The number of grammars that have a value.
    pub fn len(&self) -> (count: usize)
        ensures
            count == self.count(),
    {
        let mut count: usize = 0;
        if self.javascript.is_some() {
            count = count + 1;
        }
        if self.html.is_some() {
            count = count + 1;
        }
        if self.css.is_some() {
            count = count + 1;
        }
        if self.liquid.is_some() {
            count = count + 1;
        }
        if self.liquid_template.is_some() {
            count = count + 1;
        }
        count
    }
}

/// Why an operation produced no result.
#[derive(Debug, PartialEq, Eq)]
pub enum ParseError {
    /// The parser produced no tree at all.
    ParseError,
    /// The grammar is not available, or the parser refused it.
    LanguageError,
    /// The query did not compile, or named an unknown injection language.
    QueryError { message: String },
}

/// A `ParseError` with its message as a sequence of characters.
pub ghost enum ParseErrorView {
    ParseError,
    LanguageError,
    QueryError { message: Seq<char> },
}

impl View for ParseError {
    type V = ParseErrorView;

    open spec fn view(&self) -> ParseErrorView {
        match *self {
            ParseError::ParseError => ParseErrorView::ParseError,
            ParseError::LanguageError => ParseErrorView::LanguageError,
            ParseError::QueryError { message } => ParseErrorView::QueryError { message: message@ },
        }
    }
}

/// How a syntax node is classified.
#[derive(Debug, Clone, Copy, PartialEq, Eq, Structural)]
pub enum NodeType {
    Named,
    Error,
    Extra,
    Missing,
    Anonymous,
}

/// A position in the source text; rows and columns count from zero.
#[derive(Debug, Clone, Copy, PartialEq, Eq, Structural)]
pub struct TSPoint {
    pub row: usize,
    pub column: usize,
}

/// The part of the source text a node covers, in bytes and in rows and columns.
#[derive(Debug, Clone, Copy, PartialEq, Eq, Structural)]
pub struct TSRange {
    pub start_byte: usize,
    pub end_byte: usize,
    pub start_point: TSPoint,
    pub end_point: TSPoint,
}

/// A leaf of a syntax tree, flattened: its kind, its text and its classification.
#[derive(Debug, PartialEq, Eq)]
pub struct Token {
    pub kind: String,
    pub value: String,
    pub node_type: NodeType,
}

/// A `Token` with its strings as sequences of characters.
pub ghost struct TokenView {
    pub kind: Seq<char>,
    pub value: Seq<char>,
    pub node_type: NodeType,
}

impl View for Token {
    type V = TokenView;

    open spec fn view(&self) -> TokenView {
        TokenView { kind: self.kind@, value: self.value@, node_type: self.node_type }
    }
}

/// A node of a syntax tree in portable form. Only a node without children
/// carries text.
#[derive(Debug, PartialEq, Eq)]
pub struct TSNode {
    pub id: usize,
    pub kind: String,
    pub range: TSRange,
    pub children: Vec<TSNode>,
    pub node_type: NodeType,
    pub value: Option<String>,
}

/// A `TSNode` with its strings as sequences of characters and its children
/// as a sequence of such views.
pub ghost struct TSNodeView {
    pub id: usize,
    pub kind: Seq<char>,
    pub range: TSRange,
    pub children: Seq<TSNodeView>,
    pub node_type: NodeType,
    pub value: Option<Seq<char>>,
}

/// The view of one portable node.
pub open spec fn portable_view(node: TSNode) -> TSNodeView
    decreases node,
{
    TSNodeView {
        id: node.id,
        kind: node.kind@,
        range: node.range,
        children: portable_views(node.children@),
        node_type: node.node_type,
        value: match node.value {
            Some(text) => Some(text@),
            None => None,
        },
    }
}

/// The views of a sequence of portable nodes, in order.
pub open spec fn portable_views(nodes: Seq<TSNode>) -> Seq<TSNodeView>
    decreases nodes,
{
    if nodes.len() == 0 {
        Seq::empty()
    } else {
        portable_views(nodes.drop_last()).push(portable_view(nodes.last()))
    }
}

/// `portable_views` keeps the number of nodes.
pub proof fn lemma_portable_views_len(nodes: Seq<TSNode>)
    ensures
        portable_views(nodes).len() == nodes.len(),
    decreases nodes.len(),
{
    if nodes.len() > 0 {
        lemma_portable_views_len(nodes.drop_last());
    }
}

impl View for TSNode {
    type V = TSNodeView;

    open spec fn view(&self) -> TSNodeView {
        portable_view(*self)
    }
}

/// A property that a query pattern sets: a key and, where one was given, a value.
#[derive(Debug, PartialEq, Eq)]
pub struct QuerySetting {
    pub key: String,
    pub value: Option<String>,
}

/// A `QuerySetting` with its strings as sequences of characters.
pub ghost struct QuerySettingView {
    pub key: Seq<char>,
    pub value: Option<Seq<char>>,
}

impl View for QuerySetting {
    type V = QuerySettingView;

    open spec fn view(&self) -> QuerySettingView {
        QuerySettingView {
            key: self.key@,
            value: match self.value {
                Some(text) => Some(text@),
                None => None,
            },
        }
    }
}

/// The views of the settings of one pattern, in order.
pub open spec fn settings_view(settings: Seq<QuerySetting>) -> Seq<QuerySettingView> {
    settings.map_values(|s: QuerySetting| s@)
}

/// One match of a query: the pattern that matched, and the ranges of the
/// nodes it captured, in the order of the captures.
#[derive(Debug, PartialEq, Eq)]
pub struct QueryHit {
    pub pattern_index: usize,
    pub ranges: Vec<TSRange>,
}

/// A `QueryHit` with its ranges as a sequence.
pub ghost struct QueryHitView {
    pub pattern_index: usize,
    pub ranges: Seq<TSRange>,
}

impl View for QueryHit {
    type V = QueryHitView;

    open spec fn view(&self) -> QueryHitView {
        QueryHitView { pattern_index: self.pattern_index, ranges: self.ranges@ }
    }
}

/// The views of a sequence of matches, in order.
pub open spec fn hits_view(hits: Seq<QueryHit>) -> Seq<QueryHitView> {
    hits.map_values(|h: QueryHit| h@)
}

} // verus!
