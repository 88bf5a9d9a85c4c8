//! The decisions of the project's derive macros, over a plain model of their input: the grammars
//! of their attributes, the choice between an implementation and an error, and what each field or
//! variant becomes. A macro shell turns its token input into these values and the answers back
//! into tokens.

use vstd::prelude::*;

verus! {

/// A token of an attribute's arguments; brackets are tokens of their own.
#[derive(Clone, Debug, PartialEq, Eq)]
pub enum AttrToken {
    /// An identifier.
    Ident(String),
    /// A string literal, by its value.
    Str(String),
    /// `=`.
    Eq,
    /// `,`.
    Comma,
    /// `[`.
    Open,
    /// `]`.
    Close,
    /// Any other token, by its text.
    Other(String),
}

/// The mathematical content of a token.
pub ghost enum TokenView {
    Ident(Seq<char>),
    Str(Seq<char>),
    Eq,
    Comma,
    Open,
    Close,
    Other(Seq<char>),
}

impl View for AttrToken {
    type V = TokenView;

    open spec fn view(&self) -> TokenView {
        match self {
            AttrToken::Ident(s) => TokenView::Ident(s@),
            AttrToken::Str(s) => TokenView::Str(s@),
            AttrToken::Eq => TokenView::Eq,
            AttrToken::Comma => TokenView::Comma,
            AttrToken::Open => TokenView::Open,
            AttrToken::Close => TokenView::Close,
            AttrToken::Other(s) => TokenView::Other(s@),
        }
    }
}

/// The content of a list of tokens.
pub open spec fn tokens_view(ts: Seq<AttrToken>) -> Seq<TokenView> {
    ts.map_values(|t: AttrToken| t@)
}

/// The content of a list of strings.
pub open spec fn strings_view(ss: Seq<String>) -> Seq<Seq<char>> {
    ss.map_values(|s: String| s@)
}

/// What a comma-separated list of identifiers reads as, with an optional trailing comma.
pub open spec fn spec_ident_list(ts: Seq<TokenView>) -> Option<Seq<Seq<char>>>
    decreases ts.len(),
{
    if ts.len() == 0 {
        Some(Seq::empty())
    } else {
        match ts[0] {
            TokenView::Ident(x) => if ts.len() == 1 {
                Some(seq![x])
            } else if ts[1] == TokenView::Comma {
                match spec_ident_list(ts.subrange(2, ts.len() as int)) {
                    Some(rest) => Some(seq![x] + rest),
                    None => None,
                }
            } else {
                None
            },
            _ => None,
        }
    }
}

/// Returns whether `s` reads `word`.
fn is_word(s: &String, word: &str) -> (r: bool)
    ensures
        r == (s@ == word@),
{
    let w = word.to_owned();
    *s == w
}

/// Returns whether the token is the identifier `word`.
fn is_ident_word(t: &AttrToken, word: &str) -> (r: bool)
    ensures
        r == (t@ == TokenView::Ident(word@)),
{
    match t {
        AttrToken::Ident(s) => is_word(s, word),
        _ => false,
    }
}

/// Reads the comma-separated identifiers of `ts[start..end]`.
fn ident_list(ts: &Vec<AttrToken>, start: usize, end: usize) -> (r: Option<Vec<String>>)
    requires
        start <= end <= ts@.len(),
    ensures
        match spec_ident_list(tokens_view(ts@).subrange(start as int, end as int)) {
            Some(l) => r matches Some(v) && strings_view(v@) == l,
            None => r is None,
        },
    decreases end - start,
{
    let ghost part = tokens_view(ts@).subrange(start as int, end as int);
    if start == end {
        proof {
            assert(strings_view(Seq::<String>::empty()) =~= Seq::<Seq<char>>::empty());
        }
        return Some(Vec::new());
    }
    assert(part[0] == ts@[start as int]@);
    let x = match &ts[start] {
        AttrToken::Ident(x) => x.clone(),
        _ => {
            return None;
        },
    };
    if start + 1 == end {
        let mut v: Vec<String> = Vec::new();
        v.push(x);
        proof {
            assert(strings_view(v@) =~= seq![x@]);
        }
        return Some(v);
    }
    assert(part[1] == ts@[start + 1]@);
    match &ts[start + 1] {
        AttrToken::Comma => {},
        _ => {
            return None;
        },
    }
    proof {
        assert(part.subrange(2, part.len() as int) =~= tokens_view(ts@).subrange(start + 2, end as int));
    }
    match ident_list(ts, start + 2, end) {
        None => None,
        Some(rest) => {
            let mut v: Vec<String> = Vec::new();
            v.push(x);
            let mut rest = rest;
            let ghost rest_view = rest@;
            v.append(&mut rest);
            proof {
                assert(strings_view(v@) =~= seq![x@] + strings_view(rest_view));
            }
            Some(v)
        },
    }
}

/// Why an attribute could not be read or a derive could not be applied.
#[derive(Clone, Debug, PartialEq, Eq)]
pub enum MacroError {
    /// A required attribute is missing: its name.
    MissingAttribute(String),
    /// An attribute's arguments do not follow its grammar: its name.
    Malformed(String),
    /// A formatted key names fields of a unit struct.
    UnitFormat,
    /// The derive was applied to a union.
    Union,
    /// The attribute was applied to something other than a struct.
    NotStruct,
}

/// The mathematical content of a [`MacroError`].
pub ghost enum MacroErrorView {
    MissingAttribute(Seq<char>),
    Malformed(Seq<char>),
    UnitFormat,
    Union,
    NotStruct,
}

impl View for MacroError {
    type V = MacroErrorView;

    open spec fn view(&self) -> MacroErrorView {
        match self {
            MacroError::MissingAttribute(s) => MacroErrorView::MissingAttribute(s@),
            MacroError::Malformed(s) => MacroErrorView::Malformed(s@),
            MacroError::UnitFormat => MacroErrorView::UnitFormat,
            MacroError::Union => MacroErrorView::Union,
            MacroError::NotStruct => MacroErrorView::NotStruct,
        }
    }
}

/// The `localizer_key` attribute: where a key comes from.
#[derive(Clone, Debug, PartialEq, Eq)]
pub enum KeyAttribute {
    /// A literal key, `"key"`.
    Literal(String),
    /// A key read from a field, `from = field`.
    Field(String),
    /// A key formatted from fields, `fmt = "..", from = [a, b]`.
    Format(String, Vec<String>),
}

/// The mathematical content of a [`KeyAttribute`].
pub ghost enum KeyView {
    Literal(Seq<char>),
    Field(Seq<char>),
    Format(Seq<char>, Seq<Seq<char>>),
}

impl View for KeyAttribute {
    type V = KeyView;

    open spec fn view(&self) -> KeyView {
        match self {
            KeyAttribute::Literal(s) => KeyView::Literal(s@),
            KeyAttribute::Field(s) => KeyView::Field(s@),
            KeyAttribute::Format(f, from) => KeyView::Format(f@, strings_view(from@)),
        }
    }
}

/// What the arguments of a `localizer_key` attribute read as: `fmt = "..", from = [a, b]`,
/// `from = field`, or a string literal, with nothing after.
pub open spec fn spec_parse_localizer_key(ts: Seq<TokenView>) -> Option<KeyView> {
    if ts.len() > 0 && ts[0] == TokenView::Ident("fmt"@) {
        if ts.len() >= 8 && ts[1] == TokenView::Eq && ts[3] == TokenView::Comma && ts[4] == TokenView::Ident("from"@)
            && ts[5] == TokenView::Eq && ts[6] == TokenView::Open && ts[ts.len() - 1] == TokenView::Close {
            match ts[2] {
                TokenView::Str(f) => match spec_ident_list(ts.subrange(7, ts.len() - 1)) {
                    Some(from) => Some(KeyView::Format(f, from)),
                    None => None,
                },
                _ => None,
            }
        } else {
            None
        }
    } else if ts.len() > 0 && ts[0] == TokenView::Ident("from"@) {
        if ts.len() == 3 && ts[1] == TokenView::Eq {
            match ts[2] {
                TokenView::Ident(x) => Some(KeyView::Field(x)),
                _ => None,
            }
        } else {
            None
        }
    } else if ts.len() == 1 {
        match ts[0] {
            TokenView::Str(s) => Some(KeyView::Literal(s)),
            _ => None,
        }
    } else {
        None
    }
}

/// Reads the arguments of a `localizer_key` attribute.
///
/// # Errors
///
/// This function will return an error if the arguments do not follow the attribute's grammar.
pub fn parse_localizer_key(tokens: &Vec<AttrToken>) -> (r: Result<KeyAttribute, MacroError>)
    ensures
        match spec_parse_localizer_key(tokens_view(tokens@)) {
            Some(k) => r matches Ok(a) && a@ == k,
            None => r matches Err(e) && e@ == MacroErrorView::Malformed("localizer_key"@),
        },
{
    proof {
        reveal_strlit("localizer_key");
        reveal_strlit("fmt");
        reveal_strlit("from");
    }
    let ghost ts = tokens_view(tokens@);
    let n = tokens.len();
    let malformed = MacroError::Malformed("localizer_key".to_owned());
    if n > 0 && is_ident_word(&tokens[0], "fmt") {
        assert(ts[0] == tokens@[0]@);
        if n < 8 {
            return Err(malformed);
        }
        assert(ts[1] == tokens@[1]@ && ts[2] == tokens@[2]@ && ts[3] == tokens@[3]@);
        assert(ts[4] == tokens@[4]@ && ts[5] == tokens@[5]@ && ts[6] == tokens@[6]@);
        assert(ts[n - 1] == tokens@[n - 1]@);
        let shape = matches!(tokens[1], AttrToken::Eq) && matches!(tokens[3], AttrToken::Comma) && is_ident_word(
            &tokens[4],
            "from",
        ) && matches!(tokens[5], AttrToken::Eq) && matches!(tokens[6], AttrToken::Open) && matches!(
            tokens[n - 1],
            AttrToken::Close
        );
        if !shape {
            return Err(malformed);
        }
        let format = match &tokens[2] {
            AttrToken::Str(f) => f.clone(),
            _ => {
                return Err(malformed);
            },
        };
        match ident_list(tokens, 7, n - 1) {
            Some(from) => Ok(KeyAttribute::Format(format, from)),
            None => Err(malformed),
        }
    } else if n > 0 && is_ident_word(&tokens[0], "from") {
        assert(ts[0] == tokens@[0]@);
        if n != 3 {
            return Err(malformed);
        }
        assert(ts[1] == tokens@[1]@ && ts[2] == tokens@[2]@);
        if !matches!(tokens[1], AttrToken::Eq) {
            return Err(malformed);
        }
        match &tokens[2] {
            AttrToken::Ident(x) => Ok(KeyAttribute::Field(x.clone())),
            _ => Err(malformed),
        }
    } else {
        proof {
            if n > 0 {
                assert(ts[0] == tokens@[0]@);
            }
        }
        if n != 1 {
            return Err(malformed);
        }
        match &tokens[0] {
            AttrToken::Str(s) => Ok(KeyAttribute::Literal(s.clone())),
            _ => Err(malformed),
        }
    }
}

/// The fields of a struct.
#[derive(Clone, Debug, PartialEq, Eq)]
pub enum FieldsShape {
    /// No fields.
    Unit,
    /// Named fields, by name.
    Named(Vec<String>),
    /// Unnamed fields, by count.
    Unnamed(usize),
}

/// What the `AsTranslation` derive reads of a struct.
#[derive(Clone, Debug)]
pub struct StructInput {
    /// The struct's name.
    pub name: String,
    /// The expression of the `localizer_category` attribute, by its text, if present.
    pub category: Option<String>,
    /// The arguments of the `localizer_key` attribute, if present.
    pub key: Option<Vec<AttrToken>>,
    /// The struct's fields.
    pub fields: FieldsShape,
}

/// The expression that gives a struct's key.
#[derive(Clone, Debug, PartialEq, Eq)]
pub enum KeyExpr {
    /// A literal key.
    Literal(String),
    /// The named field, formatted with `{}`.
    Field(String),
    /// The format applied to the leading unnamed fields, bound by the given names.
    FormatBound(String, Vec<String>),
    /// The format applied to the named fields.
    FormatFields(String, Vec<String>),
    /// The format alone, with no arguments.
    FormatNone(String),
}

/// The mathematical content of a [`KeyExpr`].
pub ghost enum KeyExprView {
    Literal(Seq<char>),
    Field(Seq<char>),
    FormatBound(Seq<char>, Seq<Seq<char>>),
    FormatFields(Seq<char>, Seq<Seq<char>>),
    FormatNone(Seq<char>),
}

impl View for KeyExpr {
    type V = KeyExprView;

    open spec fn view(&self) -> KeyExprView {
        match self {
            KeyExpr::Literal(s) => KeyExprView::Literal(s@),
            KeyExpr::Field(s) => KeyExprView::Field(s@),
            KeyExpr::FormatBound(f, from) => KeyExprView::FormatBound(f@, strings_view(from@)),
            KeyExpr::FormatFields(f, from) => KeyExprView::FormatFields(f@, strings_view(from@)),
            KeyExpr::FormatNone(f) => KeyExprView::FormatNone(f@),
        }
    }
}

/// The `AsTranslation` implementation for a struct: its category and key expressions.
#[derive(Clone, Debug, PartialEq, Eq)]
pub struct TranslationImpl {
    /// The category expression, by its text.
    pub category: String,
    /// The key expression.
    pub key: KeyExpr,
}

/// The mathematical content of a [`TranslationImpl`].
pub ghost struct TranslationImplView {
    pub category: Seq<char>,
    pub key: KeyExprView,
}

impl View for TranslationImpl {
    type V = TranslationImplView;

    open spec fn view(&self) -> TranslationImplView {
        TranslationImplView { category: self.category@, key: self.key@ }
    }
}

/// What the `AsTranslation` derive gives for a struct: both attributes are required, and a
/// formatted key that names fields is refused on a unit struct.
pub open spec fn spec_as_translation_struct(input: StructInput) -> Result<TranslationImplView, MacroErrorView> {
    match input.category {
        None => Err(MacroErrorView::MissingAttribute("localizer_category"@)),
        Some(category) => match input.key {
            None => Err(MacroErrorView::MissingAttribute("localizer_key"@)),
            Some(ts) => match spec_parse_localizer_key(tokens_view(ts@)) {
                None => Err(MacroErrorView::Malformed("localizer_key"@)),
                Some(KeyView::Literal(l)) => Ok(TranslationImplView { category: category@, key: KeyExprView::Literal(l) }),
                Some(KeyView::Field(f)) => Ok(TranslationImplView { category: category@, key: KeyExprView::Field(f) }),
                Some(KeyView::Format(f, from)) => match input.fields {
                    FieldsShape::Unnamed(_) => Ok(
                        TranslationImplView { category: category@, key: KeyExprView::FormatBound(f, from) },
                    ),
                    FieldsShape::Named(_) => Ok(
                        TranslationImplView { category: category@, key: KeyExprView::FormatFields(f, from) },
                    ),
                    FieldsShape::Unit => if from.len() == 0 {
                        Ok(TranslationImplView { category: category@, key: KeyExprView::FormatNone(f) })
                    } else {
                        Err(MacroErrorView::UnitFormat)
                    },
                },
            },
        },
    }
}

/// Decides the `AsTranslation` implementation of a struct.
///
/// # Errors
///
/// This function will return an error if an attribute is missing or malformed, or a unit struct
/// has a formatted key that names fields.
pub fn as_translation_struct(input: &StructInput) -> (r: Result<TranslationImpl, MacroError>)
    ensures
        match spec_as_translation_struct(*input) {
            Ok(v) => r matches Ok(i) && i@ == v,
            Err(e) => r matches Err(x) && x@ == e,
        },
{
    proof {
        reveal_strlit("localizer_category");
        reveal_strlit("localizer_key");
    }
    let category = match &input.category {
        None => {
            return Err(MacroError::MissingAttribute("localizer_category".to_owned()));
        },
        Some(c) => c.clone(),
    };
    let tokens = match &input.key {
        None => {
            return Err(MacroError::MissingAttribute("localizer_key".to_owned()));
        },
        Some(ts) => ts,
    };
    let key = match parse_localizer_key(tokens)? {
        KeyAttribute::Literal(l) => KeyExpr::Literal(l),
        KeyAttribute::Field(f) => KeyExpr::Field(f),
        KeyAttribute::Format(f, from) => match &input.fields {
            FieldsShape::Unnamed(_) => KeyExpr::FormatBound(f, from),
            FieldsShape::Named(_) => KeyExpr::FormatFields(f, from),
            FieldsShape::Unit => {
                if from.len() == 0 {
                    KeyExpr::FormatNone(f)
                } else {
                    return Err(MacroError::UnitFormat);
                }
            },
        },
    };
    Ok(TranslationImpl { category, key })
}

/// The fields of an enum variant.
#[derive(Clone, Copy, Debug, PartialEq, Eq, Structural)]
pub enum VariantShape {
    /// No fields.
    Unit,
    /// Named fields.
    Named,
    /// Unnamed fields.
    Unnamed,
}

/// What the `AsTranslation` derive reads of an enum variant.
#[derive(Clone, Debug)]
pub struct VariantInput {
    /// The variant's name.
    pub name: String,
    /// The arguments of the variant's `localizer_key` attribute, if present.
    pub key: Option<Vec<AttrToken>>,
    /// The variant's fields.
    pub shape: VariantShape,
}

/// The match arm of one variant: its name, its fields' shape and where its key comes from. The
/// arm binds the fields its key names.
#[derive(Clone, Debug, PartialEq, Eq)]
pub struct VariantKey {
    /// The variant's name.
    pub variant: String,
    /// The variant's fields.
    pub shape: VariantShape,
    /// Where the variant's key comes from.
    pub key: KeyAttribute,
}

/// The mathematical content of a [`VariantKey`].
pub ghost struct VariantKeyView {
    pub variant: Seq<char>,
    pub shape: VariantShape,
    pub key: KeyView,
}

impl View for VariantKey {
    type V = VariantKeyView;

    open spec fn view(&self) -> VariantKeyView {
        VariantKeyView { variant: self.variant@, shape: self.shape, key: self.key@ }
    }
}

/// The match arm of one variant, or why it cannot be made.
pub open spec fn spec_variant_key(v: VariantInput) -> Result<VariantKeyView, MacroErrorView> {
    match v.key {
        None => Err(MacroErrorView::MissingAttribute("localizer_key"@)),
        Some(ts) => match spec_parse_localizer_key(tokens_view(ts@)) {
            None => Err(MacroErrorView::Malformed("localizer_key"@)),
            Some(k) => Ok(VariantKeyView { variant: v.name@, shape: v.shape, key: k }),
        },
    }
}

/// The match arms of the variants in order, or the error of the first variant that has one.
pub open spec fn spec_variant_keys(vs: Seq<VariantInput>) -> Result<Seq<VariantKeyView>, MacroErrorView>
    decreases vs.len(),
{
    if vs.len() == 0 {
        Ok(Seq::empty())
    } else {
        match spec_variant_keys(vs.drop_last()) {
            Err(e) => Err(e),
            Ok(arms) => match spec_variant_key(vs.last()) {
                Err(e) => Err(e),
                Ok(arm) => Ok(arms.push(arm)),
            },
        }
    }
}

/// What the `AsTranslation` derive reads of an enum.
#[derive(Clone, Debug)]
pub struct EnumInput {
    /// The enum's name.
    pub name: String,
    /// The expression of the `localizer_category` attribute, by its text, if present.
    pub category: Option<String>,
    /// The enum's variants, in order.
    pub variants: Vec<VariantInput>,
}

/// The `AsTranslation` implementation for an enum: its category expression, by its text, and the
/// match arm of every variant, in order.
#[derive(Clone, Debug, PartialEq, Eq)]
pub struct EnumImpl {
    /// The category expression, by its text.
    pub category: String,
    /// The match arms, one per variant.
    pub arms: Vec<VariantKey>,
}

/// The mathematical content of an [`EnumImpl`].
pub ghost struct EnumImplView {
    pub category: Seq<char>,
    pub arms: Seq<VariantKeyView>,
}

/// The content of a list of match arms.
pub open spec fn arms_view(arms: Seq<VariantKey>) -> Seq<VariantKeyView> {
    arms.map_values(|a: VariantKey| a@)
}

impl View for EnumImpl {
    type V = EnumImplView;

    open spec fn view(&self) -> EnumImplView {
        EnumImplView { category: self.category@, arms: arms_view(self.arms@) }
    }
}

/// What the `AsTranslation` derive gives for an enum: the category is required, then every
/// variant's key.
pub open spec fn spec_as_translation_enum(input: EnumInput) -> Result<EnumImplView, MacroErrorView> {
    match input.category {
        None => Err(MacroErrorView::MissingAttribute("localizer_category"@)),
        Some(c) => match spec_variant_keys(input.variants@) {
            Err(e) => Err(e),
            Ok(arms) => Ok(EnumImplView { category: c@, arms }),
        },
    }
}

/// An error among the first variants is the error of all of them.
proof fn lemma_variant_keys_error(vs: Seq<VariantInput>, n: int)
    requires
        0 <= n <= vs.len(),
        spec_variant_keys(vs.subrange(0, n)) is Err,
    ensures
        spec_variant_keys(vs) == spec_variant_keys(vs.subrange(0, n)),
    decreases vs.len(),
{
    if vs.len() == n {
        assert(vs.subrange(0, n) =~= vs);
    } else {
        assert(vs.drop_last().subrange(0, n) =~= vs.subrange(0, n));
        lemma_variant_keys_error(vs.drop_last(), n);
    }
}

/// The enum's implementation matches every variant, in order: the arms are the variants, by
/// name and shape, each with the key its attribute gives.
pub proof fn lemma_arms_follow_variants(vs: Seq<VariantInput>)
    requires
        spec_variant_keys(vs) is Ok,
    ensures
        spec_variant_keys(vs)->Ok_0.len() == vs.len(),
        forall|i: int|
            0 <= i < vs.len() ==> spec_variant_key(#[trigger] vs[i]) == Ok::<VariantKeyView, MacroErrorView>(
                spec_variant_keys(vs)->Ok_0[i],
            ),
        forall|i: int|
            0 <= i < vs.len() ==> (#[trigger] spec_variant_keys(vs)->Ok_0[i]).variant == vs[i].name@
                && spec_variant_keys(vs)->Ok_0[i].shape == vs[i].shape,
    decreases vs.len(),
{
    if vs.len() > 0 {
        lemma_arms_follow_variants(vs.drop_last());
        let arms = spec_variant_keys(vs)->Ok_0;
        let prev = spec_variant_keys(vs.drop_last())->Ok_0;
        assert forall|i: int| 0 <= i < vs.len() implies spec_variant_key(#[trigger] vs[i]) == Ok::<
            VariantKeyView,
            MacroErrorView,
        >(arms[i]) by {
            if i < vs.len() - 1 {
                assert(vs[i] == vs.drop_last()[i]);
                assert(arms[i] == prev[i]);
            }
        }
        assert forall|i: int| 0 <= i < vs.len() implies (#[trigger] arms[i]).variant == vs[i].name@ && arms[i].shape
            == vs[i].shape by {
            if i < vs.len() - 1 {
                assert(vs[i] == vs.drop_last()[i]);
                assert(arms[i] == prev[i]);
            }
        }
    }
}

/// Decides the `AsTranslation` implementation of an enum.
///
/// # Errors
///
/// This function will return an error if the category attribute is missing, or a variant's key
/// attribute is missing or malformed.
pub fn as_translation_enum(input: &EnumInput) -> (r: Result<EnumImpl, MacroError>)
    ensures
        match spec_as_translation_enum(*input) {
            Ok(v) => r matches Ok(x) && x@ == v,
            Err(e) => r matches Err(x) && x@ == e,
        },
{
    proof {
        reveal_strlit("localizer_category");
        reveal_strlit("localizer_key");
    }
    let variants = &input.variants;
    let category = match &input.category {
        None => {
            return Err(MacroError::MissingAttribute("localizer_category".to_owned()));
        },
        Some(c) => c.clone(),
    };
    let mut arms: Vec<VariantKey> = Vec::new();
    let mut i: usize = 0;
    assert(arms_view(arms@) =~= Seq::<VariantKeyView>::empty());
    assert(variants@.subrange(0, 0) =~= Seq::<VariantInput>::empty());
    while i < variants.len()
        invariant
            i <= variants@.len(),
            arms@.len() == i,
            input.category matches Some(c) && c@ == category@,
            *variants == input.variants,
            spec_variant_keys(variants@.subrange(0, i as int)) == Ok::<Seq<VariantKeyView>, MacroErrorView>(
                arms_view(arms@),
            ),
        decreases variants@.len() - i,
    {
        let ghost prefix = variants@.subrange(0, i + 1);
        assert(prefix.drop_last() =~= variants@.subrange(0, i as int));
        assert(prefix.last() == variants@[i as int]);
        let variant = &variants[i];
        let tokens = match &variant.key {
            None => {
                proof {
                    assert(spec_variant_keys(prefix) == Err::<Seq<VariantKeyView>, MacroErrorView>(
                        MacroErrorView::MissingAttribute("localizer_key"@),
                    ));
                    lemma_variant_keys_error(variants@, i + 1);
                }
                return Err(MacroError::MissingAttribute("localizer_key".to_owned()));
            },
            Some(ts) => ts,
        };
        let key = match parse_localizer_key(tokens) {
            Ok(k) => k,
            Err(e) => {
                proof {
                    assert(spec_variant_keys(prefix) == Err::<Seq<VariantKeyView>, MacroErrorView>(e@));
                    lemma_variant_keys_error(variants@, i + 1);
                }
                return Err(e);
            },
        };
        let ghost before = arms@;
        arms.push(VariantKey { variant: variant.name.clone(), shape: variant.shape, key });
        assert(arms_view(arms@) =~= arms_view(before).push(arms@[i as int]@));
        i = i + 1;
    }
    assert(variants@.subrange(0, i as int) =~= variants@);
    Ok(EnumImpl { category, arms })
}

/// What the `AsTranslation` derive is applied to.
#[derive(Clone, Debug)]
pub enum DeriveData {
    /// A struct.
    Struct(StructInput),
    /// An enum.
    Enum(EnumInput),
    /// A union, by its name.
    Union(String),
}

/// The `AsTranslation` implementation of a struct or an enum.
#[derive(Clone, Debug, PartialEq, Eq)]
pub enum TranslationDerive {
    /// The implementation of a struct.
    Struct(TranslationImpl),
    /// The implementation of an enum.
    Enum(EnumImpl),
}

/// The mathematical content of a [`TranslationDerive`].
pub ghost enum TranslationDeriveView {
    Struct(TranslationImplView),
    Enum(EnumImplView),
}

impl View for TranslationDerive {
    type V = TranslationDeriveView;

    open spec fn view(&self) -> TranslationDeriveView {
        match self {
            TranslationDerive::Struct(i) => TranslationDeriveView::Struct(i@),
            TranslationDerive::Enum(i) => TranslationDeriveView::Enum(i@),
        }
    }
}

/// What the `AsTranslation` derive gives: a union is refused.
pub open spec fn spec_as_translation(input: DeriveData) -> Result<TranslationDeriveView, MacroErrorView> {
    match input {
        DeriveData::Struct(s) => match spec_as_translation_struct(s) {
            Ok(i) => Ok(TranslationDeriveView::Struct(i)),
            Err(e) => Err(e),
        },
        DeriveData::Enum(e) => match spec_as_translation_enum(e) {
            Ok(i) => Ok(TranslationDeriveView::Enum(i)),
            Err(x) => Err(x),
        },
        DeriveData::Union(_) => Err(MacroErrorView::Union),
    }
}

/// Decides the `AsTranslation` implementation of a type.
///
/// # Errors
///
/// This function will return an error if the type is a union, or the struct or enum cannot
/// derive it.
pub fn as_translation(input: &DeriveData) -> (r: Result<TranslationDerive, MacroError>)
    ensures
        match spec_as_translation(*input) {
            Ok(v) => r matches Ok(x) && x@ == v,
            Err(e) => r matches Err(x) && x@ == e,
        },
{
    match input {
        DeriveData::Struct(s) => match as_translation_struct(s) {
            Ok(i) => Ok(TranslationDerive::Struct(i)),
            Err(e) => Err(e),
        },
        DeriveData::Enum(e) => match as_translation_enum(e) {
            Ok(i) => Ok(TranslationDerive::Enum(i)),
            Err(x) => Err(x),
        },
        DeriveData::Union(_) => Err(MacroError::Union),
    }
}

/// Copies the tokens `ts[start..end]`.
fn copy_tokens(ts: &Vec<AttrToken>, start: usize, end: usize) -> (r: Vec<AttrToken>)
    requires
        start <= end <= ts@.len(),
    ensures
        tokens_view(r@) == tokens_view(ts@).subrange(start as int, end as int),
{
    let mut out: Vec<AttrToken> = Vec::new();
    let mut k = start;
    while k < end
        invariant
            start <= k <= end <= ts@.len(),
            tokens_view(out@) == tokens_view(ts@).subrange(start as int, k as int),
        decreases end - k,
    {
        let t = copy_token(&ts[k]);
        let ghost before = out@;
        out.push(t);
        assert(tokens_view(out@) =~= tokens_view(before).push(t@));
        assert(tokens_view(out@) =~= tokens_view(ts@).subrange(start as int, k + 1));
        k = k + 1;
    }
    out
}

/// The `data_path` attribute: the format of the path, the types of the format's arguments, each
/// by its text, and the fields that give those arguments.
#[derive(Clone, Debug, PartialEq, Eq)]
pub struct StoredPath {
    /// The format of the path.
    pub format: String,
    /// The types of the format's arguments.
    pub arguments: Vec<String>,
    /// The fields that give the arguments.
    pub fields: Vec<String>,
}

/// The mathematical content of a [`StoredPath`].
pub ghost struct StoredPathView {
    pub format: Seq<char>,
    pub arguments: Seq<Seq<char>>,
    pub fields: Seq<Seq<char>>,
}

impl View for StoredPath {
    type V = StoredPathView;

    open spec fn view(&self) -> StoredPathView {
        StoredPathView { format: self.format@, arguments: strings_view(self.arguments@), fields: strings_view(self.fields@) }
    }
}

/// The position of the first `]` of `ts` at or after `start`, or the length of `ts` if none.
pub open spec fn spec_first_close(ts: Seq<TokenView>, start: int) -> int
    decreases ts.len() - start,
{
    if start < 0 || start >= ts.len() {
        ts.len() as int
    } else if ts[start] == TokenView::Close {
        start
    } else {
        spec_first_close(ts, start + 1)
    }
}

/// What the arguments of a `data_path` attribute read as:
/// `fmt = "..", args = [T, U], from = [a, b]`, each type given as one identifier token that holds
/// its text, and nothing after.
pub open spec fn spec_parse_stored_path(ts: Seq<TokenView>) -> Option<StoredPathView> {
    if ts.len() >= 7 && ts[0] == TokenView::Ident("fmt"@) && ts[1] == TokenView::Eq && ts[3] == TokenView::Comma
        && ts[4] == TokenView::Ident("args"@) && ts[5] == TokenView::Eq && ts[6] == TokenView::Open {
        let k = spec_first_close(ts, 7);
        if k + 5 < ts.len() && ts[k + 1] == TokenView::Comma && ts[k + 2] == TokenView::Ident("from"@) && ts[k + 3]
            == TokenView::Eq && ts[k + 4] == TokenView::Open && ts[ts.len() - 1] == TokenView::Close {
            match ts[2] {
                TokenView::Str(f) => match (
                    spec_ident_list(ts.subrange(7, k)),
                    spec_ident_list(ts.subrange(k + 5, ts.len() - 1)),
                ) {
                    (Some(a), Some(b)) => Some(StoredPathView { format: f, arguments: a, fields: b }),
                    _ => None,
                },
                _ => None,
            }
        } else {
            None
        }
    } else {
        None
    }
}

/// Reads the arguments of a `data_path` attribute.
///
/// # Errors
///
/// This function will return an error if the arguments do not follow the attribute's grammar.
pub fn parse_stored_path(tokens: &Vec<AttrToken>) -> (r: Result<StoredPath, MacroError>)
    ensures
        match spec_parse_stored_path(tokens_view(tokens@)) {
            Some(p) => r matches Ok(x) && x@ == p,
            None => r matches Err(e) && e@ == MacroErrorView::Malformed("data_path"@),
        },
{
    proof {
        reveal_strlit("data_path");
        reveal_strlit("fmt");
        reveal_strlit("args");
        reveal_strlit("from");
    }
    let ghost ts = tokens_view(tokens@);
    let n = tokens.len();
    let malformed = MacroError::Malformed("data_path".to_owned());
    if n < 7 {
        return Err(malformed);
    }
    assert(ts[0] == tokens@[0]@ && ts[1] == tokens@[1]@ && ts[2] == tokens@[2]@ && ts[3] == tokens@[3]@);
    assert(ts[4] == tokens@[4]@ && ts[5] == tokens@[5]@ && ts[6] == tokens@[6]@);
    let head = is_ident_word(&tokens[0], "fmt") && matches!(tokens[1], AttrToken::Eq) && matches!(
        tokens[3],
        AttrToken::Comma
    ) && is_ident_word(&tokens[4], "args") && matches!(tokens[5], AttrToken::Eq) && matches!(
        tokens[6],
        AttrToken::Open
    );
    if !head {
        return Err(malformed);
    }
    let k = find_close(tokens, 7);
    if n - k <= 5 {
        return Err(malformed);
    }
    assert(ts[k + 1] == tokens@[k + 1]@ && ts[k + 2] == tokens@[k + 2]@ && ts[k + 3] == tokens@[k + 3]@);
    assert(ts[k + 4] == tokens@[k + 4]@ && ts[n - 1] == tokens@[n - 1]@);
    let tail = matches!(tokens[k + 1], AttrToken::Comma) && is_ident_word(&tokens[k + 2], "from") && matches!(
        tokens[k + 3],
        AttrToken::Eq
    ) && matches!(tokens[k + 4], AttrToken::Open) && matches!(tokens[n - 1], AttrToken::Close);
    if !tail {
        return Err(malformed);
    }
    let format = match &tokens[2] {
        AttrToken::Str(f) => f.clone(),
        _ => {
            return Err(malformed);
        },
    };
    let arguments = match ident_list(tokens, 7, k) {
        Some(a) => a,
        None => {
            return Err(malformed);
        },
    };
    match ident_list(tokens, k + 5, n - 1) {
        Some(fields) => Ok(StoredPath { format, arguments, fields }),
        None => Err(malformed),
    }
}

/// The `data_format` attribute: the format's type, by its text, and how a value of it is made.
#[derive(Clone, Debug, PartialEq, Eq)]
pub enum DataFormatAttribute {
    /// `T`: the type's default value.
    Default(String),
    /// `kind = T, from = EXPR`: the given expression, by its tokens.
    Expr(String, Vec<AttrToken>),
}

/// The mathematical content of a [`DataFormatAttribute`].
pub ghost enum DataFormatView {
    Default(Seq<char>),
    Expr(Seq<char>, Seq<TokenView>),
}

impl View for DataFormatAttribute {
    type V = DataFormatView;

    open spec fn view(&self) -> DataFormatView {
        match self {
            DataFormatAttribute::Default(t) => DataFormatView::Default(t@),
            DataFormatAttribute::Expr(t, e) => DataFormatView::Expr(t@, tokens_view(e@)),
        }
    }
}

/// What the arguments of a `data_format` attribute read as: a type alone, or
/// `kind = T, from = EXPR` with a non-empty expression; a type is one identifier token that holds
/// its text.
pub open spec fn spec_parse_data_format(ts: Seq<TokenView>) -> Option<DataFormatView> {
    if ts.len() == 1 {
        match ts[0] {
            TokenView::Ident(t) => Some(DataFormatView::Default(t)),
            _ => None,
        }
    } else if ts.len() >= 7 && ts[0] == TokenView::Ident("kind"@) && ts[1] == TokenView::Eq && ts[3]
        == TokenView::Comma && ts[4] == TokenView::Ident("from"@) && ts[5] == TokenView::Eq {
        match ts[2] {
            TokenView::Ident(t) => Some(DataFormatView::Expr(t, ts.subrange(6, ts.len() as int))),
            _ => None,
        }
    } else {
        None
    }
}

/// Reads the arguments of a `data_format` attribute.
///
/// # Errors
///
/// This function will return an error if the arguments do not follow the attribute's grammar.
pub fn parse_data_format(tokens: &Vec<AttrToken>) -> (r: Result<DataFormatAttribute, MacroError>)
    ensures
        match spec_parse_data_format(tokens_view(tokens@)) {
            Some(f) => r matches Ok(x) && x@ == f,
            None => r matches Err(e) && e@ == MacroErrorView::Malformed("data_format"@),
        },
{
    proof {
        reveal_strlit("data_format");
        reveal_strlit("kind");
        reveal_strlit("from");
    }
    let ghost ts = tokens_view(tokens@);
    let n = tokens.len();
    let malformed = MacroError::Malformed("data_format".to_owned());
    if n == 1 {
        assert(ts[0] == tokens@[0]@);
        return match &tokens[0] {
            AttrToken::Ident(t) => Ok(DataFormatAttribute::Default(t.clone())),
            _ => Err(malformed),
        };
    }
    if n < 7 {
        return Err(malformed);
    }
    assert(ts[0] == tokens@[0]@ && ts[1] == tokens@[1]@ && ts[2] == tokens@[2]@);
    assert(ts[3] == tokens@[3]@ && ts[4] == tokens@[4]@ && ts[5] == tokens@[5]@);
    let shape = is_ident_word(&tokens[0], "kind") && matches!(tokens[1], AttrToken::Eq) && matches!(
        tokens[3],
        AttrToken::Comma
    ) && is_ident_word(&tokens[4], "from") && matches!(tokens[5], AttrToken::Eq);
    if !shape {
        return Err(malformed);
    }
    match &tokens[2] {
        AttrToken::Ident(t) => Ok(DataFormatAttribute::Expr(t.clone(), copy_tokens(tokens, 6, n))),
        _ => Err(malformed),
    }
}

/// What the `Stored` derive reads of a type: the arguments of its two attributes, where present.
#[derive(Clone, Debug)]
pub struct StoredInput {
    /// The type's name.
    pub name: String,
    /// The arguments of the `data_format` attribute, if present.
    pub format: Option<Vec<AttrToken>>,
    /// The arguments of the `data_path` attribute, if present.
    pub path: Option<Vec<AttrToken>>,
}

/// The `Stored` implementation of a type: how its format is made and where it is stored.
#[derive(Clone, Debug, PartialEq, Eq)]
pub struct StoredImpl {
    /// The data format.
    pub format: DataFormatAttribute,
    /// The data path.
    pub path: StoredPath,
}

/// The mathematical content of a [`StoredImpl`].
pub ghost struct StoredImplView {
    pub format: DataFormatView,
    pub path: StoredPathView,
}

impl View for StoredImpl {
    type V = StoredImplView;

    open spec fn view(&self) -> StoredImplView {
        StoredImplView { format: self.format@, path: self.path@ }
    }
}

/// What the `Stored` derive gives: both attributes are required and read in turn, the format
/// first.
pub open spec fn spec_stored(input: StoredInput) -> Result<StoredImplView, MacroErrorView> {
    match input.format {
        None => Err(MacroErrorView::MissingAttribute("data_format"@)),
        Some(f) => match spec_parse_data_format(tokens_view(f@)) {
            None => Err(MacroErrorView::Malformed("data_format"@)),
            Some(format) => match input.path {
                None => Err(MacroErrorView::MissingAttribute("data_path"@)),
                Some(p) => match spec_parse_stored_path(tokens_view(p@)) {
                    None => Err(MacroErrorView::Malformed("data_path"@)),
                    Some(path) => Ok(StoredImplView { format, path }),
                },
            },
        },
    }
}

/// Decides the `Stored` implementation of a type.
///
/// # Errors
///
/// This function will return an error if an attribute is missing or malformed.
pub fn stored(input: &StoredInput) -> (r: Result<StoredImpl, MacroError>)
    ensures
        match spec_stored(*input) {
            Ok(v) => r matches Ok(x) && x@ == v,
            Err(e) => r matches Err(x) && x@ == e,
        },
{
    proof {
        reveal_strlit("data_format");
        reveal_strlit("data_path");
    }
    let format = match &input.format {
        None => {
            return Err(MacroError::MissingAttribute("data_format".to_owned()));
        },
        Some(f) => parse_data_format(f)?,
    };
    let path = match &input.path {
        None => {
            return Err(MacroError::MissingAttribute("data_path".to_owned()));
        },
        Some(p) => parse_stored_path(p)?,
    };
    Ok(StoredImpl { format, path })
}

/// What the `optional` attribute reads of a field: its name, absent for a tuple field, its type's
/// path, by segments, and the arguments of its `#[option(..)]` annotation, if present.
#[derive(Clone, Debug)]
pub struct FieldModel {
    /// The field's name.
    pub name: Option<String>,
    /// The segments of the path of the field's type.
    pub ty: Vec<String>,
    /// The arguments of the field's `option` annotation, if present.
    pub option: Option<Vec<AttrToken>>,
}

/// How a field is filled when it is left out.
#[derive(Clone, Debug, PartialEq, Eq)]
pub enum FieldDefault {
    /// `#[option(default)]`: the type's default value; the optional field's type is wrapped in
    /// `Option`.
    Trait,
    /// `#[option(default = EXPR)]`: the given expression, by its tokens; the optional field's type
    /// is wrapped in `Option`.
    Expr(Vec<AttrToken>),
    /// `#[option(flatten)]`: the field's own filled defaults; the optional field's type is the
    /// type's optional counterpart, flattened into the command.
    Flatten,
}

/// The mathematical content of a [`FieldDefault`].
pub ghost enum FieldDefaultView {
    Trait,
    Expr(Seq<TokenView>),
    Flatten,
}

impl View for FieldDefault {
    type V = FieldDefaultView;

    open spec fn view(&self) -> FieldDefaultView {
        match self {
            FieldDefault::Trait => FieldDefaultView::Trait,
            FieldDefault::Expr(e) => FieldDefaultView::Expr(tokens_view(e@)),
            FieldDefault::Flatten => FieldDefaultView::Flatten,
        }
    }
}

/// A field of the optional struct: its name and how it is filled when left out.
#[derive(Clone, Debug, PartialEq, Eq)]
pub struct OptionalField {
    /// The field's name.
    pub name: String,
    /// How the field is filled.
    pub default: FieldDefault,
    /// The segments of the path of the field's type in the optional struct, which is wrapped in
    /// `Option` unless the field is flattened.
    pub ty: Vec<String>,
}

/// The mathematical content of an [`OptionalField`].
pub ghost struct OptionalFieldView {
    pub name: Seq<char>,
    pub default: FieldDefaultView,
    pub ty: Seq<Seq<char>>,
}

impl View for OptionalField {
    type V = OptionalFieldView;

    open spec fn view(&self) -> OptionalFieldView {
        OptionalFieldView { name: self.name@, default: self.default@, ty: strings_view(self.ty@) }
    }
}

/// The content of a list of optional fields.
pub open spec fn optional_view(fs: Seq<OptionalField>) -> Seq<OptionalFieldView> {
    fs.map_values(|f: OptionalField| f@)
}

/// What the arguments of an `option` annotation read as: `default`, `flatten`, or
/// `default = EXPR` with a non-empty expression.
pub open spec fn spec_parse_option(ts: Seq<TokenView>) -> Option<FieldDefaultView> {
    if ts.len() == 1 && ts[0] == TokenView::Ident("default"@) {
        Some(FieldDefaultView::Trait)
    } else if ts.len() == 1 && ts[0] == TokenView::Ident("flatten"@) {
        Some(FieldDefaultView::Flatten)
    } else if ts.len() >= 3 && ts[0] == TokenView::Ident("default"@) && ts[1] == TokenView::Eq {
        Some(FieldDefaultView::Expr(ts.subrange(2, ts.len() as int)))
    } else {
        None
    }
}

/// Reads the arguments of an `option` annotation.
pub fn parse_option(tokens: &Vec<AttrToken>) -> (r: Option<FieldDefault>)
    ensures
        match spec_parse_option(tokens_view(tokens@)) {
            Some(d) => r matches Some(x) && x@ == d,
            None => r is None,
        },
{
    proof {
        reveal_strlit("default");
        reveal_strlit("flatten");
    }
    let ghost ts = tokens_view(tokens@);
    let n = tokens.len();
    if n == 0 {
        return None;
    }
    assert(ts[0] == tokens@[0]@);
    let default = is_ident_word(&tokens[0], "default");
    if n == 1 {
        if default {
            return Some(FieldDefault::Trait);
        }
        if is_ident_word(&tokens[0], "flatten") {
            return Some(FieldDefault::Flatten);
        }
        return None;
    }
    assert(ts[1] == tokens@[1]@);
    if n >= 3 && default && matches!(tokens[1], AttrToken::Eq) {
        Some(FieldDefault::Expr(copy_tokens(tokens, 2, n)))
    } else {
        None
    }
}

/// The path of a field's type in the optional struct: a flattened field's type is the type's
/// optional counterpart, whose last segment is prefixed with `Optional`; any other keeps its path.
pub open spec fn spec_optional_type(ty: Seq<Seq<char>>, default: FieldDefaultView) -> Seq<Seq<char>> {
    if default is Flatten && ty.len() > 0 {
        ty.update(ty.len() - 1, "Optional"@ + ty.last())
    } else {
        ty
    }
}

/// Copies a list of strings.
fn copy_strings(ss: &Vec<String>) -> (r: Vec<String>)
    ensures
        strings_view(r@) == strings_view(ss@),
{
    let mut out: Vec<String> = Vec::new();
    let mut k: usize = 0;
    while k < ss.len()
        invariant
            k <= ss@.len(),
            strings_view(out@) == strings_view(ss@).subrange(0, k as int),
        decreases ss@.len() - k,
    {
        let ghost before = out@;
        out.push(ss[k].clone());
        assert(strings_view(out@) =~= strings_view(before).push(ss@[k as int]@));
        assert(strings_view(out@) =~= strings_view(ss@).subrange(0, k + 1));
        k = k + 1;
    }
    assert(strings_view(ss@).subrange(0, k as int) =~= strings_view(ss@));
    out
}

/// Gives the path of a field's type in the optional struct.
fn optional_type(ty: &Vec<String>, default: &FieldDefault) -> (r: Vec<String>)
    ensures
        strings_view(r@) == spec_optional_type(strings_view(ty@), default@),
{
    proof {
        reveal_strlit("Optional");
    }
    let mut out = copy_strings(ty);
    let n = out.len();
    if matches!(default, FieldDefault::Flatten) && n > 0 {
        let mut last = "Optional".to_owned();
        last.append(ty[n - 1].as_str());
        let ghost before = out@;
        out.set(n - 1, last);
        assert(strings_view(out@) =~= strings_view(before).update(n - 1, "Optional"@ + ty@[n - 1]@));
    }
    out
}

/// How a field is filled, or why its annotation is refused.
pub open spec fn spec_field_default(f: FieldModel) -> Result<FieldDefaultView, MacroErrorView> {
    match f.option {
        None => Err(MacroErrorView::MissingAttribute("option"@)),
        Some(ts) => match spec_parse_option(tokens_view(ts@)) {
            None => Err(MacroErrorView::Malformed("option"@)),
            Some(d) => Ok(d),
        },
    }
}

/// The fields of the optional struct in order, or the error of the first field that has one.
pub open spec fn spec_optional_fields(fs: Seq<FieldModel>) -> Result<Seq<OptionalFieldView>, MacroErrorView>
    decreases fs.len(),
{
    if fs.len() == 0 {
        Ok(Seq::empty())
    } else {
        match spec_optional_fields(fs.drop_last()) {
            Err(e) => Err(e),
            Ok(prev) => match spec_field_default(fs.last()) {
                Err(e) => Err(e),
                Ok(d) => {
                    let ty = spec_optional_type(strings_view(fs.last().ty@), d);
                    match fs.last().name {
                        Some(n) => Ok(prev.push(OptionalFieldView { name: n@, default: d, ty })),
                        None => Ok(prev.push(OptionalFieldView { name: Seq::empty(), default: d, ty })),
                    }
                },
            },
        }
    }
}

/// Whether every field that is reached with a well-formed annotation has a name: the fields are
/// read in order up to the first refused one, and a tuple field is not supported.
pub open spec fn reached_fields_named(fs: Seq<FieldModel>) -> bool {
    forall|i: int|
        0 <= i < fs.len() && #[trigger] spec_optional_fields(fs.subrange(0, i)) is Ok && spec_field_default(fs[i]) is Ok
            ==> fs[i].name is Some
}

/// An error among the first fields is the error of all of them.
proof fn lemma_optional_fields_error(fs: Seq<FieldModel>, n: int)
    requires
        0 <= n <= fs.len(),
        spec_optional_fields(fs.subrange(0, n)) is Err,
    ensures
        spec_optional_fields(fs) == spec_optional_fields(fs.subrange(0, n)),
    decreases fs.len(),
{
    if fs.len() == n {
        assert(fs.subrange(0, n) =~= fs);
    } else {
        assert(fs.drop_last().subrange(0, n) =~= fs.subrange(0, n));
        lemma_optional_fields_error(fs.drop_last(), n);
    }
}

/// The optional struct has every field of the struct, in order, by name, each filled as its
/// annotation says.
pub proof fn lemma_optional_fields_follow_fields(fs: Seq<FieldModel>)
    requires
        spec_optional_fields(fs) is Ok,
    ensures
        spec_optional_fields(fs)->Ok_0.len() == fs.len(),
        forall|i: int|
            0 <= i < fs.len() ==> spec_field_default(#[trigger] fs[i]) == Ok::<FieldDefaultView, MacroErrorView>(
                spec_optional_fields(fs)->Ok_0[i].default,
            ),
        forall|i: int|
            0 <= i < fs.len() && (#[trigger] fs[i]).name is Some ==> spec_optional_fields(fs)->Ok_0[i].name
                == fs[i].name->Some_0@,
    decreases fs.len(),
{
    if fs.len() > 0 {
        lemma_optional_fields_follow_fields(fs.drop_last());
        let out = spec_optional_fields(fs)->Ok_0;
        let prev = spec_optional_fields(fs.drop_last())->Ok_0;
        assert forall|i: int| 0 <= i < fs.len() implies spec_field_default(#[trigger] fs[i]) == Ok::<
            FieldDefaultView,
            MacroErrorView,
        >(out[i].default) by {
            if i < fs.len() - 1 {
                assert(fs[i] == fs.drop_last()[i]);
                assert(out[i] == prev[i]);
            }
        }
        assert forall|i: int| 0 <= i < fs.len() && (#[trigger] fs[i]).name is Some implies out[i].name
            == fs[i].name->Some_0@ by {
            if i < fs.len() - 1 {
                assert(fs[i] == fs.drop_last()[i]);
                assert(out[i] == prev[i]);
            }
        }
    }
}

/// Decides the fields of the optional struct that the `optional` attribute makes of a struct.
///
/// # Errors
///
/// This function will return an error if a field has no `option` annotation or a malformed one.
pub fn optional_fields(fields: &Vec<FieldModel>) -> (r: Result<Vec<OptionalField>, MacroError>)
    requires
        reached_fields_named(fields@),
    ensures
        match spec_optional_fields(fields@) {
            Ok(v) => r matches Ok(x) && optional_view(x@) == v,
            Err(e) => r matches Err(x) && x@ == e,
        },
{
    proof {
        reveal_strlit("option");
    }
    let mut out: Vec<OptionalField> = Vec::new();
    let mut i: usize = 0;
    assert(optional_view(out@) =~= Seq::<OptionalFieldView>::empty());
    assert(fields@.subrange(0, 0) =~= Seq::<FieldModel>::empty());
    while i < fields.len()
        invariant
            i <= fields@.len(),
            out@.len() == i,
            reached_fields_named(fields@),
            spec_optional_fields(fields@.subrange(0, i as int)) == Ok::<Seq<OptionalFieldView>, MacroErrorView>(
                optional_view(out@),
            ),
        decreases fields@.len() - i,
    {
        let ghost prefix = fields@.subrange(0, i + 1);
        assert(prefix.drop_last() =~= fields@.subrange(0, i as int));
        assert(prefix.last() == fields@[i as int]);
        let field = &fields[i];
        let tokens = match &field.option {
            None => {
                proof {
                    assert(spec_optional_fields(prefix) == Err::<Seq<OptionalFieldView>, MacroErrorView>(
                        MacroErrorView::MissingAttribute("option"@),
                    ));
                    lemma_optional_fields_error(fields@, i + 1);
                }
                return Err(MacroError::MissingAttribute("option".to_owned()));
            },
            Some(ts) => ts,
        };
        let default = match parse_option(tokens) {
            Some(d) => d,
            None => {
                proof {
                    assert(spec_optional_fields(prefix) == Err::<Seq<OptionalFieldView>, MacroErrorView>(
                        MacroErrorView::Malformed("option"@),
                    ));
                    lemma_optional_fields_error(fields@, i + 1);
                }
                return Err(MacroError::Malformed("option".to_owned()));
            },
        };
        assert(spec_optional_fields(fields@.subrange(0, i as int)) is Ok && spec_field_default(fields@[i as int])
            is Ok);
        let name = match &field.name {
            Some(n) => n.clone(),
            None => vstd::pervasive::unreached(),
        };
        let ty = optional_type(&field.ty, &default);
        let ghost before = out@;
        out.push(OptionalField { name, default, ty });
        assert(optional_view(out@) =~= optional_view(before).push(out@[i as int]@));
        i = i + 1;
    }
    assert(fields@.subrange(0, i as int) =~= fields@);
    Ok(out)
}

/// What the `optional` attribute reads of the item it is applied to.
#[derive(Clone, Debug)]
pub struct OptionalInput {
    /// The item's name.
    pub name: String,
    /// Whether the item is a struct.
    pub is_struct: bool,
    /// The struct's fields, in order.
    pub fields: Vec<FieldModel>,
}

/// What the `optional` attribute makes of a struct: the struct keeps its name, a struct named
/// `Optional` and that name is added, and each field is filled as its annotation says.
#[derive(Clone, Debug, PartialEq, Eq)]
pub struct OptionalStruct {
    /// The name of the struct with every field present.
    pub name: String,
    /// The name of the struct with optional fields.
    pub optional_name: String,
    /// The fields, in order.
    pub fields: Vec<OptionalField>,
}

/// The mathematical content of an [`OptionalStruct`].
pub ghost struct OptionalStructView {
    pub name: Seq<char>,
    pub optional_name: Seq<char>,
    pub fields: Seq<OptionalFieldView>,
}

impl View for OptionalStruct {
    type V = OptionalStructView;

    open spec fn view(&self) -> OptionalStructView {
        OptionalStructView { name: self.name@, optional_name: self.optional_name@, fields: optional_view(self.fields@) }
    }
}

/// What the `optional` attribute gives: only a struct is accepted, then every field is read.
pub open spec fn spec_optional(input: OptionalInput) -> Result<OptionalStructView, MacroErrorView> {
    if !input.is_struct {
        Err(MacroErrorView::NotStruct)
    } else {
        match spec_optional_fields(input.fields@) {
            Err(e) => Err(e),
            Ok(fields) => Ok(
                OptionalStructView { name: input.name@, optional_name: "Optional"@ + input.name@, fields },
            ),
        }
    }
}

/// Decides what the `optional` attribute makes of an item.
///
/// # Errors
///
/// This function will return an error if the item is not a struct, or a field has no `option`
/// annotation or a malformed one.
pub fn optional(input: &OptionalInput) -> (r: Result<OptionalStruct, MacroError>)
    requires
        input.is_struct ==> reached_fields_named(input.fields@),
    ensures
        match spec_optional(*input) {
            Ok(v) => r matches Ok(x) && x@ == v,
            Err(e) => r matches Err(x) && x@ == e,
        },
{
    if !input.is_struct {
        return Err(MacroError::NotStruct);
    }
    let fields = optional_fields(&input.fields)?;
    let mut optional_name = "Optional".to_owned();
    optional_name.append(input.name.as_str());
    Ok(OptionalStruct { name: input.name.clone(), optional_name, fields })
}

/// Copies a token.
fn copy_token(t: &AttrToken) -> (r: AttrToken)
    ensures
        r@ == t@,
{
    match t {
        AttrToken::Ident(x) => AttrToken::Ident(x.clone()),
        AttrToken::Str(x) => AttrToken::Str(x.clone()),
        AttrToken::Eq => AttrToken::Eq,
        AttrToken::Comma => AttrToken::Comma,
        AttrToken::Open => AttrToken::Open,
        AttrToken::Close => AttrToken::Close,
        AttrToken::Other(x) => AttrToken::Other(x.clone()),
    }
}

/// The value of one `name = value` argument of the `optional` attribute: a bracketed list, by the
/// tokens inside the brackets, or one token; any other group is one `Other` token holding its
/// text.
#[derive(Clone, Debug, PartialEq, Eq)]
pub enum ArgValue {
    /// `[..]`.
    Bracketed(Vec<AttrToken>),
    /// A single token.
    Single(AttrToken),
}

/// The mathematical content of an [`ArgValue`].
pub ghost enum ArgValueView {
    Bracketed(Seq<TokenView>),
    Single(TokenView),
}

impl View for ArgValue {
    type V = ArgValueView;

    open spec fn view(&self) -> ArgValueView {
        match self {
            ArgValue::Bracketed(ts) => ArgValueView::Bracketed(tokens_view(ts@)),
            ArgValue::Single(t) => ArgValueView::Single(t@),
        }
    }
}

/// One `name = value` argument.
#[derive(Clone, Debug, PartialEq, Eq)]
pub struct NameValue {
    /// The argument's name.
    pub name: String,
    /// The argument's value.
    pub value: ArgValue,
}

/// The content of a list of arguments.
pub open spec fn name_values_view(nvs: Seq<NameValue>) -> Seq<(Seq<char>, ArgValueView)> {
    nvs.map_values(|nv: NameValue| (nv.name@, nv.value@))
}

/// The value that starts at `ts[at]` and the position just after it: a bracketed list runs to
/// the first `]`; any other value is one identifier, literal or other token.
pub open spec fn spec_value_at(ts: Seq<TokenView>, at: int) -> Option<(ArgValueView, int)> {
    if 0 <= at < ts.len() {
        if ts[at] == TokenView::Open {
            let k = spec_first_close(ts, at + 1);
            if at < k < ts.len() {
                Some((ArgValueView::Bracketed(ts.subrange(at + 1, k)), k + 1))
            } else {
                None
            }
        } else {
            match ts[at] {
                TokenView::Ident(_) => Some((ArgValueView::Single(ts[at]), at + 1)),
                TokenView::Str(_) => Some((ArgValueView::Single(ts[at]), at + 1)),
                TokenView::Other(_) => Some((ArgValueView::Single(ts[at]), at + 1)),
                _ => None,
            }
        }
    } else {
        None
    }
}

/// What `ts[start..]` reads as: comma-separated `name = value` arguments, with an optional
/// trailing comma.
pub open spec fn spec_name_values(ts: Seq<TokenView>, start: int) -> Option<Seq<(Seq<char>, ArgValueView)>>
    decreases ts.len() - start,
{
    if start < 0 || start >= ts.len() {
        Some(Seq::empty())
    } else if start + 2 < ts.len() && ts[start + 1] == TokenView::Eq {
        match ts[start] {
            TokenView::Ident(name) => match spec_value_at(ts, start + 2) {
                None => None,
                Some((v, end)) => if end >= ts.len() {
                    Some(seq![(name, v)])
                } else if end > start && ts[end] == TokenView::Comma {
                    match spec_name_values(ts, end + 1) {
                        Some(rest) => Some(seq![(name, v)] + rest),
                        None => None,
                    }
                } else {
                    None
                },
            },
            _ => None,
        }
    } else {
        None
    }
}

/// Finds the first `]` of `ts` at or after `start`.
fn find_close(ts: &Vec<AttrToken>, start: usize) -> (r: usize)
    requires
        start <= ts@.len(),
    ensures
        start <= r <= ts@.len(),
        r as int == spec_first_close(tokens_view(ts@), start as int),
{
    let ghost tv = tokens_view(ts@);
    let n = ts.len();
    let mut k = start;
    while k < n && !matches!(ts[k], AttrToken::Close)
        invariant
            start <= k <= n,
            n == ts@.len(),
            tv == tokens_view(ts@),
            spec_first_close(tv, start as int) == spec_first_close(tv, k as int),
        decreases n - k,
    {
        assert(tv[k as int] == ts@[k as int]@);
        k = k + 1;
    }
    proof {
        if k < n {
            assert(tv[k as int] == ts@[k as int]@);
        }
    }
    k
}

/// Reads the value that starts at `ts[at]`.
fn value_at(ts: &Vec<AttrToken>, at: usize) -> (r: Option<(ArgValue, usize)>)
    ensures
        match spec_value_at(tokens_view(ts@), at as int) {
            Some((v, end)) => r matches Some((x, e)) && x@ == v && e == end,
            None => r is None,
        },
{
    let ghost tv = tokens_view(ts@);
    let n = ts.len();
    if at >= n {
        return None;
    }
    assert(tv[at as int] == ts@[at as int]@);
    match &ts[at] {
        AttrToken::Open => {
            let k = find_close(ts, at + 1);
            if k < n {
                Some((ArgValue::Bracketed(copy_tokens(ts, at + 1, k)), k + 1))
            } else {
                None
            }
        },
        AttrToken::Ident(_) | AttrToken::Str(_) | AttrToken::Other(_) => Some(
            (ArgValue::Single(copy_token(&ts[at])), at + 1),
        ),
        _ => None,
    }
}

/// Reads the `name = value` arguments of `ts[start..]`.
fn name_values(ts: &Vec<AttrToken>, start: usize) -> (r: Option<Vec<NameValue>>)
    requires
        start <= ts@.len(),
    ensures
        match spec_name_values(tokens_view(ts@), start as int) {
            Some(l) => r matches Some(v) && name_values_view(v@) == l,
            None => r is None,
        },
    decreases ts@.len() - start,
{
    let ghost tv = tokens_view(ts@);
    let n = ts.len();
    if start >= n {
        let v: Vec<NameValue> = Vec::new();
        assert(name_values_view(v@) =~= Seq::<(Seq<char>, ArgValueView)>::empty());
        return Some(v);
    }
    if n - start <= 2 {
        return None;
    }
    assert(tv[start as int] == ts@[start as int]@ && tv[start + 1] == ts@[start + 1]@);
    if !matches!(ts[start + 1], AttrToken::Eq) {
        return None;
    }
    let name = match &ts[start] {
        AttrToken::Ident(x) => x.clone(),
        _ => {
            return None;
        },
    };
    let (value, end) = match value_at(ts, start + 2) {
        Some(found) => found,
        None => {
            return None;
        },
    };
    let ghost pair = (name@, value@);
    let mut out: Vec<NameValue> = Vec::new();
    out.push(NameValue { name, value });
    assert(name_values_view(out@) =~= seq![pair]);
    if end >= n {
        return Some(out);
    }
    assert(tv[end as int] == ts@[end as int]@);
    if !matches!(ts[end], AttrToken::Comma) {
        return None;
    }
    match name_values(ts, end + 1) {
        None => None,
        Some(rest) => {
            let mut rest = rest;
            let ghost rest_view = rest@;
            out.append(&mut rest);
            assert(name_values_view(out@) =~= seq![pair] + name_values_view(rest_view));
            Some(out)
        },
    }
}

/// The arguments of the `optional` attribute as they are read, before the kept annotations that
/// are always added.
pub ghost struct ArgumentsState {
    pub apply_derives: Option<Seq<Seq<char>>>,
    pub keep_annotations: Option<Seq<Seq<char>>>,
    pub keep_field_annotations: Option<Seq<Seq<char>>>,
    pub apply_annotations: Option<Seq<char>>,
}

/// The paths of a bracketed list of paths, each one identifier token holding its text.
pub open spec fn spec_path_list(v: ArgValueView) -> Option<Seq<Seq<char>>> {
    match v {
        ArgValueView::Bracketed(inner) => spec_ident_list(inner),
        _ => None,
    }
}

/// Applies one argument; an unknown name or a value of the wrong shape is refused, and a later
/// argument replaces an earlier one of the same name.
pub open spec fn spec_apply_argument(st: ArgumentsState, name: Seq<char>, v: ArgValueView) -> Option<ArgumentsState> {
    if name == "apply_derives"@ {
        match spec_path_list(v) {
            Some(l) => Some(ArgumentsState { apply_derives: Some(l), ..st }),
            None => None,
        }
    } else if name == "keep_annotations"@ {
        match spec_path_list(v) {
            Some(l) => Some(ArgumentsState { keep_annotations: Some(l), ..st }),
            None => None,
        }
    } else if name == "keep_field_annotations"@ {
        match spec_path_list(v) {
            Some(l) => Some(ArgumentsState { keep_field_annotations: Some(l), ..st }),
            None => None,
        }
    } else if name == "apply_annotations"@ {
        match v {
            ArgValueView::Single(TokenView::Other(t)) => Some(ArgumentsState { apply_annotations: Some(t), ..st }),
            _ => None,
        }
    } else {
        None
    }
}

/// Applies the arguments in order, starting from none given.
pub open spec fn spec_apply_arguments(pairs: Seq<(Seq<char>, ArgValueView)>) -> Option<ArgumentsState>
    decreases pairs.len(),
{
    if pairs.len() == 0 {
        Some(
            ArgumentsState {
                apply_derives: None,
                keep_annotations: None,
                keep_field_annotations: None,
                apply_annotations: None,
            },
        )
    } else {
        match spec_apply_arguments(pairs.drop_last()) {
            None => None,
            Some(st) => spec_apply_argument(st, pairs.last().0, pairs.last().1),
        }
    }
}

/// A refused argument among the first ones refuses them all.
proof fn lemma_apply_arguments_refused(pairs: Seq<(Seq<char>, ArgValueView)>, n: int)
    requires
        0 <= n <= pairs.len(),
        spec_apply_arguments(pairs.subrange(0, n)) is None,
    ensures
        spec_apply_arguments(pairs) is None,
    decreases pairs.len(),
{
    if pairs.len() == n {
        assert(pairs.subrange(0, n) =~= pairs);
    } else {
        assert(pairs.drop_last().subrange(0, n) =~= pairs.subrange(0, n));
        lemma_apply_arguments_refused(pairs.drop_last(), n);
    }
}

/// The arguments of the `optional` attribute: the derives applied to the struct with every field
/// present, the annotations kept on it and on its fields, and the annotations applied to it, by
/// their text. Documentation is always kept, and so is `derive` where derives are applied.
#[derive(Clone, Debug, PartialEq, Eq)]
pub struct OptionalArguments {
    /// The derives applied to the struct with every field present, if given.
    pub apply_derives: Option<Vec<String>>,
    /// The paths of the annotations kept on that struct.
    pub keep_annotations: Vec<String>,
    /// The paths of the annotations kept on its fields.
    pub keep_field_annotations: Vec<String>,
    /// The annotations applied to that struct, by their text, if given.
    pub apply_annotations: Option<String>,
}

/// The mathematical content of [`OptionalArguments`].
pub ghost struct OptionalArgumentsView {
    pub apply_derives: Option<Seq<Seq<char>>>,
    pub keep_annotations: Seq<Seq<char>>,
    pub keep_field_annotations: Seq<Seq<char>>,
    pub apply_annotations: Option<Seq<char>>,
}

impl View for OptionalArguments {
    type V = OptionalArgumentsView;

    open spec fn view(&self) -> OptionalArgumentsView {
        OptionalArgumentsView {
            apply_derives: match self.apply_derives {
                Some(l) => Some(strings_view(l@)),
                None => None,
            },
            keep_annotations: strings_view(self.keep_annotations@),
            keep_field_annotations: strings_view(self.keep_field_annotations@),
            apply_annotations: match self.apply_annotations {
                Some(t) => Some(t@),
                None => None,
            },
        }
    }
}

/// A list given as an argument, or the empty list.
pub open spec fn given_or_empty(l: Option<Seq<Seq<char>>>) -> Seq<Seq<char>> {
    match l {
        Some(l) => l,
        None => Seq::empty(),
    }
}

/// What the arguments of the `optional` attribute read as.
pub open spec fn spec_parse_optional_arguments(ts: Seq<TokenView>) -> Option<OptionalArgumentsView> {
    match spec_name_values(ts, 0) {
        None => None,
        Some(pairs) => match spec_apply_arguments(pairs) {
            None => None,
            Some(st) => Some(
                OptionalArgumentsView {
                    apply_derives: st.apply_derives,
                    keep_annotations: given_or_empty(st.keep_annotations).push("doc"@) + if st.apply_derives is Some {
                        seq!["derive"@]
                    } else {
                        Seq::empty()
                    },
                    keep_field_annotations: given_or_empty(st.keep_field_annotations).push("doc"@),
                    apply_annotations: st.apply_annotations,
                },
            ),
        },
    }
}

/// Reads a bracketed list of paths.
fn path_list(v: &ArgValue) -> (r: Option<Vec<String>>)
    ensures
        match spec_path_list(v@) {
            Some(l) => r matches Some(x) && strings_view(x@) == l,
            None => r is None,
        },
{
    match v {
        ArgValue::Bracketed(inner) => {
            let r = ident_list(inner, 0, inner.len());
            assert(tokens_view(inner@).subrange(0, inner@.len() as int) =~= tokens_view(inner@));
            r
        },
        _ => None,
    }
}

/// Reads the arguments of the `optional` attribute.
///
/// # Errors
///
/// This function will return an error if the arguments are not comma-separated `name = value`
/// pairs, a name is unknown, or a value has the wrong shape.
pub fn parse_optional_arguments(tokens: &Vec<AttrToken>) -> (r: Result<OptionalArguments, MacroError>)
    ensures
        match spec_parse_optional_arguments(tokens_view(tokens@)) {
            Some(a) => r matches Ok(x) && x@ == a,
            None => r matches Err(e) && e@ == MacroErrorView::Malformed("optional"@),
        },
{
    proof {
        reveal_strlit("optional");
        reveal_strlit("apply_derives");
        reveal_strlit("keep_annotations");
        reveal_strlit("keep_field_annotations");
        reveal_strlit("apply_annotations");
        reveal_strlit("doc");
        reveal_strlit("derive");
    }
    let pairs = match name_values(tokens, 0) {
        Some(p) => p,
        None => {
            return Err(MacroError::Malformed("optional".to_owned()));
        },
    };
    let ghost pv = name_values_view(pairs@);
    let mut apply_derives: Option<Vec<String>> = None;
    let mut keep_annotations: Option<Vec<String>> = None;
    let mut keep_field_annotations: Option<Vec<String>> = None;
    let mut apply_annotations: Option<String> = None;
    let mut i: usize = 0;
    assert(pv.subrange(0, 0) =~= Seq::<(Seq<char>, ArgValueView)>::empty());
    while i < pairs.len()
        invariant
            i <= pairs@.len(),
            pv == name_values_view(pairs@),
            spec_name_values(tokens_view(tokens@), 0) == Some(pv),
            spec_apply_arguments(pv.subrange(0, i as int)) == Some(
                ArgumentsState {
                    apply_derives: match apply_derives {
                        Some(l) => Some(strings_view(l@)),
                        None => None,
                    },
                    keep_annotations: match keep_annotations {
                        Some(l) => Some(strings_view(l@)),
                        None => None,
                    },
                    keep_field_annotations: match keep_field_annotations {
                        Some(l) => Some(strings_view(l@)),
                        None => None,
                    },
                    apply_annotations: match apply_annotations {
                        Some(t) => Some(t@),
                        None => None,
                    },
                },
            ),
        decreases pairs@.len() - i,
    {
        let ghost prefix = pv.subrange(0, i + 1);
        assert(prefix.drop_last() =~= pv.subrange(0, i as int));
        assert(prefix.last() == pv[i as int]);
        let pair = &pairs[i];
        let name = &pair.name;
        if is_word(name, "apply_derives") {
            match path_list(&pair.value) {
                Some(l) => {
                    apply_derives = Some(l);
                },
                None => {
                    proof {
                        assert(spec_apply_arguments(prefix) is None);
                        lemma_apply_arguments_refused(pv, i + 1);
                    }
                    return Err(MacroError::Malformed("optional".to_owned()));
                },
            }
        } else if is_word(name, "keep_annotations") {
            match path_list(&pair.value) {
                Some(l) => {
                    keep_annotations = Some(l);
                },
                None => {
                    proof {
                        assert(spec_apply_arguments(prefix) is None);
                        lemma_apply_arguments_refused(pv, i + 1);
                    }
                    return Err(MacroError::Malformed("optional".to_owned()));
                },
            }
        } else if is_word(name, "keep_field_annotations") {
            match path_list(&pair.value) {
                Some(l) => {
                    keep_field_annotations = Some(l);
                },
                None => {
                    proof {
                        assert(spec_apply_arguments(prefix) is None);
                        lemma_apply_arguments_refused(pv, i + 1);
                    }
                    return Err(MacroError::Malformed("optional".to_owned()));
                },
            }
        } else if is_word(name, "apply_annotations") {
            match &pair.value {
                ArgValue::Single(AttrToken::Other(t)) => {
                    apply_annotations = Some(t.clone());
                },
                _ => {
                    proof {
                        assert(spec_apply_arguments(prefix) is None);
                        lemma_apply_arguments_refused(pv, i + 1);
                    }
                    return Err(MacroError::Malformed("optional".to_owned()));
                },
            }
        } else {
            proof {
                assert(spec_apply_arguments(prefix) is None);
                lemma_apply_arguments_refused(pv, i + 1);
            }
            return Err(MacroError::Malformed("optional".to_owned()));
        }
        i = i + 1;
    }
    assert(pv.subrange(0, i as int) =~= pv);
    let mut keep = match keep_annotations {
        Some(l) => l,
        None => Vec::new(),
    };
    keep.push("doc".to_owned());
    if apply_derives.is_some() {
        keep.push("derive".to_owned());
    }
    let mut keep_field = match keep_field_annotations {
        Some(l) => l,
        None => Vec::new(),
    };
    keep_field.push("doc".to_owned());
    let r = OptionalArguments {
        apply_derives,
        keep_annotations: keep,
        keep_field_annotations: keep_field,
        apply_annotations,
    };
    proof {
        let st = spec_apply_arguments(pv)->Some_0;
        assert(r@.keep_annotations =~= given_or_empty(st.keep_annotations).push("doc"@) + if st.apply_derives is Some {
            seq!["derive"@]
        } else {
            Seq::empty()
        });
        assert(r@.keep_field_annotations =~= given_or_empty(st.keep_field_annotations).push("doc"@));
    }
    Ok(r)
}

} // verus!
