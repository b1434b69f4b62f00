use vstd::prelude::*;

use crate::database::{content_type_of_code, ContentType, Count};
use crate::text::{chars_of, decimal, parse_u8, push_char, spec_decimal, spec_parse_u8, spells};

verus! {

/// The values that a template's placeholders are filled with.
#[derive(Debug, Clone)]
pub struct TemplateSchema {
    pub content: String,
    pub shortened: String,
    pub count: Vec<Count>,
}

/// A `TemplateSchema` with its strings taken as character sequences.
pub struct SchemaModel {
    pub content: Seq<char>,
    pub shortened: Seq<char>,
    pub count: Seq<Count>,
}

impl View for TemplateSchema {
    type V = SchemaModel;

    open spec fn view(&self) -> SchemaModel {
        SchemaModel { content: self.content@, shortened: self.shortened@, count: self.count@ }
    }
}

/// Values that can be turned into a `TemplateSchema`.
pub trait IntoTemplateSchema: Sized {
    /// The schema that `into` makes of this value.
    spec fn schema_view(&self) -> SchemaModel;

    /// Turns this value into a schema.
    fn into(self) -> (res: TemplateSchema)
        ensures
            res@ == self.schema_view(),
    ;
}

impl IntoTemplateSchema for TemplateSchema {
    open spec fn schema_view(&self) -> SchemaModel {
        self@
    }

    fn into(self) -> (res: TemplateSchema) {
        self
    }
}

impl IntoTemplateSchema for (String, String) {
    open spec fn schema_view(&self) -> SchemaModel {
        SchemaModel { content: self.0@, shortened: self.1@, count: Seq::empty() }
    }

    fn into(self) -> (res: TemplateSchema) {
        TemplateSchema { content: self.0, shortened: self.1, count: Vec::new() }
    }
}

impl IntoTemplateSchema for (String, String, Vec<Count>) {
    open spec fn schema_view(&self) -> SchemaModel {
        SchemaModel { content: self.0@, shortened: self.1@, count: self.2@ }
    }

    fn into(self) -> (res: TemplateSchema) {
        TemplateSchema { content: self.0, shortened: self.1, count: self.2 }
    }
}

impl IntoTemplateSchema for (String, String, Count) {
    open spec fn schema_view(&self) -> SchemaModel {
        SchemaModel { content: self.0@, shortened: self.1@, count: seq![self.2] }
    }

    fn into(self) -> (res: TemplateSchema) {
        let res = TemplateSchema { content: self.0, shortened: self.1, count: vec![self.2] };
        assert(res.count@ =~= seq![self.2]);
        res
    }
}

/// A schema made of a tuple holds the tuple's parts in order: its first
/// string as the content, its second as the short code, and then the counts
/// given (none, the list, or the one count); a schema made of a schema is that
/// schema.
pub proof fn lemma_schema_parts(
    a: (String, String),
    b: (String, String, Vec<Count>),
    c: (String, String, Count),
    d: TemplateSchema,
)
    ensures
        a.schema_view().content == a.0@ && a.schema_view().shortened == a.1@
            && a.schema_view().count.len() == 0,
        b.schema_view().content == b.0@ && b.schema_view().shortened == b.1@
            && b.schema_view().count == b.2@,
        c.schema_view().content == c.0@ && c.schema_view().shortened == c.1@
            && c.schema_view().count.len() == 1 && c.schema_view().count[0] == c.2,
        d.schema_view().content == d.content@ && d.schema_view().shortened == d.shortened@
            && d.schema_view().count == d.count@,
{
}

impl TemplateSchema {
    /// Makes a schema of any value that can be turned into one.
    pub fn new<T: IntoTemplateSchema>(to_schema: T) -> (res: TemplateSchema)
        ensures
            res@ == to_schema.schema_view(),
    {
        IntoTemplateSchema::into(to_schema)
    }

    /// The schema with empty content, empty code and no counts.
    pub fn create_null_schema() -> (res: TemplateSchema)
        ensures
            res@ == (SchemaModel { content: Seq::empty(), shortened: Seq::empty(), count: Seq::empty() }),
    {
        let res = TemplateSchema { content: String::new(), shortened: String::new(), count: Vec::new() };
        assert(res.count@ =~= Seq::<Count>::empty());
        res
    }
}

/// Why a template could not be filled in.
#[derive(PartialEq, Eq, Structural, Debug, Clone, Copy)]
pub enum TemplateError {
    /// A placeholder names no known key.
    InvalidKey,
    /// The text before a ':' in a placeholder is no number from 0 to 255.
    InvalidNumber,
    /// A count placeholder asks for a content type that the schema has no count of.
    MissingCount,
}

/// The first count in `counts` of the content type `content_type`.
pub open spec fn first_count(counts: Seq<Count>, content_type: ContentType) -> Option<u64>
    decreases counts.len(),
{
    if counts.len() == 0 {
        None
    } else if counts[0].content_type == content_type {
        Some(counts[0].count)
    } else {
        first_count(counts.drop_first(), content_type)
    }
}

/// What a placeholder with the key `key` and the number `key_value` is filled
/// with: the schema's content, its code, the domain, or, for "count", the
/// first count of the content type that the number stands for, in decimal.
pub open spec fn spec_necessary_value(
    key: Seq<char>,
    key_value: u8,
    schema: SchemaModel,
    domain: Seq<char>,
) -> Result<Seq<char>, TemplateError> {
    if key == "content"@ {
        Ok(schema.content)
    } else if key == "shortened"@ {
        Ok(schema.shortened)
    } else if key == "domain"@ {
        Ok(domain)
    } else if key == "count"@ {
        match first_count(schema.count, content_type_of_code(key_value)) {
            Some(n) => Ok(spec_decimal(n as nat)),
            None => Err(TemplateError::MissingCount),
        }
    } else {
        Err(TemplateError::InvalidKey)
    }
}

/// The state of a pass over a template, left to right: the text written so
/// far, the placeholder key read so far, the number read before a ':' in the
/// placeholder, and whether the pass is inside a placeholder.
pub struct RenderState {
    pub out: Seq<char>,
    pub key: Seq<char>,
    pub key_value: u8,
    pub in_key: bool,
}

/// The state before the first character.
pub open spec fn initial_render_state() -> RenderState {
    RenderState { out: Seq::empty(), key: Seq::empty(), key_value: 0, in_key: false }
}

/// How one character moves the pass on. '{' enters a placeholder (and keeps
/// what was read of it); '}' fills in the placeholder read so far, inside one
/// or not, and leaves it; inside a placeholder, ':' reads the key so far as a
/// number and starts the key anew, and any other character is added to the
/// key; outside, a character is written as it is.
pub open spec fn render_step(
    st: RenderState,
    c: char,
    schema: SchemaModel,
    domain: Seq<char>,
) -> Result<RenderState, TemplateError> {
    if c == '{' {
        Ok(RenderState { out: st.out, key: st.key, key_value: st.key_value, in_key: true })
    } else if c == '}' {
        match spec_necessary_value(st.key, st.key_value, schema, domain) {
            Ok(v) => Ok(
                RenderState { out: st.out + v, key: Seq::empty(), key_value: 0, in_key: false },
            ),
            Err(e) => Err(e),
        }
    } else if st.in_key {
        if c == ':' {
            match spec_parse_u8(st.key) {
                Some(v) => Ok(
                    RenderState { out: st.out, key: Seq::empty(), key_value: v, in_key: true },
                ),
                None => Err(TemplateError::InvalidNumber),
            }
        } else {
            Ok(
                RenderState {
                    out: st.out,
                    key: st.key.push(c),
                    key_value: st.key_value,
                    in_key: true,
                },
            )
        }
    } else {
        Ok(
            RenderState {
                out: st.out.push(c),
                key: st.key,
                key_value: st.key_value,
                in_key: false,
            },
        )
    }
}

/// The pass over the whole of `template`, stopping at the first failure.
pub open spec fn spec_render(
    template: Seq<char>,
    schema: SchemaModel,
    domain: Seq<char>,
) -> Result<RenderState, TemplateError>
    decreases template.len(),
{
    if template.len() == 0 {
        Ok(initial_render_state())
    } else {
        match spec_render(template.drop_last(), schema, domain) {
            Ok(st) => render_step(st, template.last(), schema, domain),
            Err(e) => Err(e),
        }
    }
}

/// A template without braces is filled in as itself.
pub proof fn lemma_render_plain_text(template: Seq<char>, schema: SchemaModel, domain: Seq<char>)
    requires
        !template.contains('{'),
        !template.contains('}'),
    ensures
        spec_render(template, schema, domain) == Ok::<RenderState, TemplateError>(
            RenderState { out: template, key: Seq::empty(), key_value: 0, in_key: false },
        ),
    decreases template.len(),
{
    if template.len() > 0 {
        let rest = template.drop_last();
        assert(!rest.contains('{') && !rest.contains('}')) by {
            if rest.contains('{') || rest.contains('}') {
                let k = choose|k: int| 0 <= k < rest.len() && (rest[k] == '{' || rest[k] == '}');
                assert(template[k] == rest[k]);
            }
        }
        lemma_render_plain_text(rest, schema, domain);
        assert(template.last() == template[template.len() - 1]);
        assert(rest.push(template.last()) =~= template);
    } else {
        assert(template =~= Seq::<char>::empty());
    }
}

/// Adding a count to the end of a schema's counts changes no count that was
/// already found, and makes a count of its content type found.
pub proof fn lemma_first_count_push(counts: Seq<Count>, added: Count, content_type: ContentType)
    ensures
        first_count(counts, content_type) is Some ==> first_count(counts.push(added), content_type)
            == first_count(counts, content_type),
        first_count(counts.push(added), added.content_type) is Some,
    decreases counts.len(),
{
    if counts.len() > 0 {
        lemma_first_count_push(counts.drop_first(), added, content_type);
        assert(counts.push(added).drop_first() =~= counts.drop_first().push(added));
    } else {
        assert(counts.push(added) =~= seq![added]);
    }
}

/// A pass result with `prefix` written before its text.
pub open spec fn after_text(
    r: Result<RenderState, TemplateError>,
    prefix: Seq<char>,
) -> Result<RenderState, TemplateError> {
    match r {
        Ok(st) => Ok(
            RenderState {
                out: prefix + st.out,
                key: st.key,
                key_value: st.key_value,
                in_key: st.in_key,
            },
        ),
        Err(e) => Err(e),
    }
}

/// A filled-in placeholder leaves nothing behind: after a '}' the pass holds
/// no key, the number 0, and is outside any placeholder.
pub proof fn lemma_render_resets_after_close(
    template: Seq<char>,
    schema: SchemaModel,
    domain: Seq<char>,
)
    ensures
        spec_render(template.push('}'), schema, domain) matches Ok(st) ==> st.key == Seq::<
            char,
        >::empty() && st.key_value == 0 && !st.in_key,
{
    assert(template.push('}').drop_last() =~= template);
}

/// What was written so far does not change how one character moves the pass on.
proof fn lemma_render_step_after_text(
    st: RenderState,
    c: char,
    prefix: Seq<char>,
    schema: SchemaModel,
    domain: Seq<char>,
)
    ensures
        render_step(
            RenderState {
                out: prefix + st.out,
                key: st.key,
                key_value: st.key_value,
                in_key: st.in_key,
            },
            c,
            schema,
            domain,
        ) == after_text(render_step(st, c, schema, domain), prefix),
{
    if c == '}' {
        if let Ok(v) = spec_necessary_value(st.key, st.key_value, schema, domain) {
            assert(prefix + st.out + v =~= prefix + (st.out + v));
        }
    } else if c != '{' && !st.in_key {
        assert((prefix + st.out).push(c) =~= prefix + st.out.push(c));
    }
}

/// Placeholders are filled in one by one, each on its own: once a template
/// has gone through with a filled-in placeholder at its end, filling in the
/// template followed by more text gives its text followed by what filling in
/// the rest alone gives.
pub proof fn lemma_render_placeholder_local(
    first: Seq<char>,
    rest: Seq<char>,
    schema: SchemaModel,
    domain: Seq<char>,
)
    requires
        first.len() > 0,
        first.last() == '}',
        spec_render(first, schema, domain) is Ok,
    ensures
        spec_render(first + rest, schema, domain) == after_text(
            spec_render(rest, schema, domain),
            spec_render(first, schema, domain)->Ok_0.out,
        ),
    decreases rest.len(),
{
    assert(first.drop_last().push('}') =~= first);
    lemma_render_resets_after_close(first.drop_last(), schema, domain);
    let o = spec_render(first, schema, domain)->Ok_0.out;
    if rest.len() == 0 {
        assert(first + rest =~= first);
        assert(o + Seq::<char>::empty() =~= o);
    } else {
        lemma_render_placeholder_local(first, rest.drop_last(), schema, domain);
        assert((first + rest).drop_last() =~= first + rest.drop_last());
        assert((first + rest).last() == rest.last());
        if let Ok(st) = spec_render(rest.drop_last(), schema, domain) {
            lemma_render_step_after_text(st, rest.last(), o, schema, domain);
        }
    }
}

/// What filling in a template came to.
#[derive(Debug)]
pub enum RenderOutcome {
    /// The filled-in text.
    Done(String),
    /// A count placeholder needs a count that the schema lacks: fetch the
    /// count of all entries, add it to the schema and fill in again.
    FetchCount,
    /// The template cannot be filled in.
    Failed(TemplateError),
}

/// The first count in `counts` of the content type `content_type`.
pub fn find_count(counts: &Vec<Count>, content_type: ContentType) -> (res: Option<u64>)
    ensures
        res == first_count(counts@, content_type),
{
    let n = counts.len();
    let mut i: usize = 0;
    assert(counts@.skip(0) =~= counts@);
    while i < n
        invariant
            n == counts@.len(),
            i <= n,
            first_count(counts@.skip(i as int), content_type) == first_count(counts@, content_type),
        decreases n - i,
    {
        assert(counts@.skip(i as int).drop_first() =~= counts@.skip(i + 1));
        if counts[i].content_type == content_type {
            return Some(counts[i].count);
        }
        i = i + 1;
    }
    None
}

/// What a placeholder with the key `key` and the number `key_value` is filled
/// with (see `spec_necessary_value`).
pub fn get_necessary_value(
    key: &str,
    key_value: u8,
    schema: &TemplateSchema,
    domain: &str,
) -> (res: Result<String, TemplateError>)
    ensures
        match spec_necessary_value(key@, key_value, schema@, domain@) {
            Ok(v) => res matches Ok(r) && r@ == v,
            Err(e) => res == Err::<String, TemplateError>(e),
        },
{
    let k = chars_of(key);
    if spells(&k, "content") {
        Ok(schema.content.clone())
    } else if spells(&k, "shortened") {
        Ok(schema.shortened.clone())
    } else if spells(&k, "domain") {
        Ok(domain.to_owned())
    } else if spells(&k, "count") {
        match find_count(&schema.count, ContentType::from(key_value)) {
            Some(n) => Ok(decimal(n)),
            None => Err(TemplateError::MissingCount),
        }
    } else {
        Err(TemplateError::InvalidKey)
    }
}

/// A failure part way through a template is the failure of the whole pass.
proof fn lemma_render_failure_stays(
    template: Seq<char>,
    schema: SchemaModel,
    domain: Seq<char>,
    i: int,
    j: int,
)
    requires
        0 <= i <= j <= template.len(),
        spec_render(template.take(i), schema, domain) is Err,
    ensures
        spec_render(template.take(j), schema, domain) == spec_render(
            template.take(i),
            schema,
            domain,
        ),
    decreases j - i,
{
    if j > i {
        lemma_render_failure_stays(template, schema, domain, i, j - 1);
        assert(template.take(j).drop_last() =~= template.take(j - 1));
    }
}

/// Whether `res` is what filling in `template` comes to: the text of the
/// pass when it goes through; when a count is missing, `FetchCount` if a
/// fetch is allowed and the failure otherwise; any other failure as it is.
pub open spec fn renders_as(
    res: RenderOutcome,
    template: Seq<char>,
    schema: SchemaModel,
    domain: Seq<char>,
    may_fetch_count: bool,
) -> bool {
    match spec_render(template, schema, domain) {
        Ok(st) => res matches RenderOutcome::Done(text) && text@ == st.out,
        Err(TemplateError::MissingCount) => if may_fetch_count {
            res is FetchCount
        } else {
            res == RenderOutcome::Failed(TemplateError::MissingCount)
        },
        Err(e) => res == RenderOutcome::Failed(e),
    }
}

/// Fills in the placeholders of `template` from `schema` and `domain`, as
/// `spec_render` describes. When a count is missing, `FetchCount` asks the
/// caller for the count of all entries if `may_fetch_count` allows it;
/// otherwise the missing count is a failure.
pub fn apply_templates(
    template: &str,
    schema: &TemplateSchema,
    domain: &str,
    may_fetch_count: bool,
) -> (res: RenderOutcome)
    ensures
        renders_as(res, template@, schema@, domain@, may_fetch_count),
{
    let t = chars_of(template);
    let n = t.len();
    let mut out = String::new();
    let mut key = String::new();
    let mut key_value: u8 = 0;
    let mut in_key = false;
    let mut i: usize = 0;
    assert(t@.take(0) =~= Seq::<char>::empty());
    while i < n
        invariant
            n == t@.len(),
            t@ == template@,
            i <= n,
            spec_render(t@.take(i as int), schema@, domain@) == Ok::<RenderState, TemplateError>(
                RenderState { out: out@, key: key@, key_value, in_key },
            ),
        decreases n - i,
    {
        let c = t[i];
        assert(t@.take(i + 1).drop_last() =~= t@.take(i as int));
        assert(t@.take(i + 1).last() == c);
        let mut failure: Option<TemplateError> = None;
        if c == '{' {
            in_key = true;
        } else if c == '}' {
            match get_necessary_value(key.as_str(), key_value, schema, domain) {
                Ok(value) => {
                    out.append(value.as_str());
                    key = String::new();
                    key_value = 0;
                    in_key = false;
                },
                Err(e) => {
                    failure = Some(e);
                },
            }
        } else if in_key {
            if c == ':' {
                match parse_u8(&chars_of(key.as_str())) {
                    Some(v) => {
                        key_value = v;
                        key = String::new();
                    },
                    None => {
                        failure = Some(TemplateError::InvalidNumber);
                    },
                }
            } else {
                push_char(&mut key, c);
            }
        } else {
            push_char(&mut out, c);
        }
        if let Some(e) = failure {
            proof {
                lemma_render_failure_stays(t@, schema@, domain@, i + 1, n as int);
                assert(t@.take(n as int) =~= t@);
            }
            if e == TemplateError::MissingCount && may_fetch_count {
                return RenderOutcome::FetchCount;
            }
            return RenderOutcome::Failed(e);
        }
        i = i + 1;
    }
    assert(t@.take(n as int) =~= t@);
    RenderOutcome::Done(out)
}

/// The filling-in of one page: the count of all entries is fetched at most
/// once, and a count still missing after that is a failure.
pub struct TemplateRendering {
    pub count_fetched: bool,
}

impl TemplateRendering {
    /// A filling-in that has fetched no count yet.
    pub fn new() -> (res: Self)
        ensures
            !res.count_fetched,
    {
        TemplateRendering { count_fetched: false }
    }

    /// Fills in `template`; a missing count asks for the count of all entries
    /// (and notes that it is being fetched) only if none was fetched before.
    pub fn render(&mut self, template: &str, schema: &TemplateSchema, domain: &str) -> (res:
        RenderOutcome)
        ensures
            renders_as(res, template@, schema@, domain@, !old(self).count_fetched),
            final(self).count_fetched == (old(self).count_fetched || res is FetchCount),
    {
        let res = apply_templates(template, schema, domain, !self.count_fetched);
        if let RenderOutcome::FetchCount = res {
            self.count_fetched = true;
        }
        res
    }
}

} // verus!
