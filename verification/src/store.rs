//! The prompt template store: an ordered, read-only table of command
//! specifications, consulted by prefix match, plus the rendering of the
//! help listing derived from it.

use vstd::prelude::*;
use vstd::utf8::encode_utf8;
use vstd::string::StrSliceExecFns;
use vstd::string::StringSliceAdditionalSpecFns;
use crate::text::{is_space, token_matches, matches_token};

verus! {

/// One command: the token a user types and what it does. Exactly one of
/// `static_reply` and `model_id` is set; `help_mode` marks the spec whose
/// reply is the header of the rendered command listing.
pub struct CommandSpec {
    pub token: Vec<u8>,
    pub static_reply: Option<Vec<u8>>,
    pub model_id: Option<Vec<u8>>,
    pub prompt_prefix: Option<Vec<u8>>,
    pub protect_mode: bool,
    pub persona_mode: bool,
    pub help_mode: bool,
}

/// A command spec is well formed when its token is nonempty and free of
/// whitespace, it carries exactly one of a static reply and a model
/// identifier, and a help spec carries the static header.
pub open spec fn spec_wf(s: CommandSpec) -> bool {
    &&& s.token@.len() >= 1
    &&& forall|k: int| 0 <= k < s.token@.len() ==> !is_space(s.token@[k])
    &&& (s.static_reply is Some <==> s.model_id is None)
    &&& (s.help_mode ==> s.static_reply is Some)
}

/// All specs of a table are well formed.
pub open spec fn all_wf(specs: Seq<CommandSpec>) -> bool {
    forall|i: int| 0 <= i < specs.len() ==> spec_wf(#[trigger] specs[i])
}

/// Two distinct well-formed tokens never match the same text: a token is
/// whitespace-free, so a matching token is cut at the first whitespace of
/// the text and no other length fits.
pub proof fn lemma_token_match_unambiguous(t1: Seq<u8>, t2: Seq<u8>, text: Seq<u8>)
    requires
        forall|k: int| 0 <= k < t1.len() ==> !is_space(t1[k]),
        forall|k: int| 0 <= k < t2.len() ==> !is_space(t2[k]),
        token_matches(t1, text),
        token_matches(t2, text),
    ensures
        t1 == t2,
{
    if t1.len() < t2.len() {
        assert(is_space(text[t1.len() as int]));
        assert(text[t1.len() as int] == t2[t1.len() as int]);
        assert(false);
    }
    if t2.len() < t1.len() {
        assert(is_space(text[t2.len() as int]));
        assert(text[t2.len() as int] == t1[t2.len() as int]);
        assert(false);
    }
    assert(t1 =~= t2);
}

/// Rejected configuration: a spec that carries neither a static reply nor
/// a model identifier, or is otherwise malformed, found at startup.
#[derive(Debug)]
pub enum ConfigError {
    InvalidSpec { index: usize },
}

/// The ordered command table, validated at construction and read-only
/// afterwards.
pub struct TemplateStore {
    pub specs: Vec<CommandSpec>,
}

impl TemplateStore {
    /// The table is well formed.
    pub open spec fn wf(self) -> bool {
        all_wf(self.specs@)
    }

    /// Validates `specs` and builds the store; a malformed spec is
    /// rejected with its position.
    pub fn new(specs: Vec<CommandSpec>) -> (r: Result<TemplateStore, ConfigError>)
        ensures
            match r {
                Ok(st) => st.specs == specs && st.wf(),
                Err(e) => {
                    &&& !all_wf(specs@)
                    &&& (e matches ConfigError::InvalidSpec { index } ==> index < specs@.len()
                        && !spec_wf(specs@[index as int]) && (forall|k: int|
                        0 <= k < index ==> spec_wf(#[trigger] specs@[k])))
                },
            },
    {
        let n: usize = specs.len();
        let mut i: usize = 0;
        while i < n
            invariant
                n == specs@.len(),
                0 <= i <= n,
                forall|k: int| 0 <= k < i ==> spec_wf(#[trigger] specs@[k]),
            decreases n - i,
        {
            if !check_wf(&specs[i]) {
                return Err(ConfigError::InvalidSpec { index: i });
            }
            i = i + 1;
        }
        Ok(TemplateStore { specs })
    }

    /// Number of specs in declaration order.
    pub fn len(&self) -> (r: usize)
        ensures
            r == self.specs@.len(),
    {
        self.specs.len()
    }

    /// The specs, in declaration order.
    pub fn list(&self) -> (r: &Vec<CommandSpec>)
        ensures
            r@ == self.specs@,
    {
        &self.specs
    }

    /// The first spec, in declaration order, whose token matches the
    /// trimmed message text; `None` when no token matches.
    pub fn lookup(&self, text: &[u8]) -> (r: Option<usize>)
        ensures
            match r {
                Some(i) => i < self.specs@.len() && token_matches(self.specs@[i as int].token@, text@)
                    && (forall|k: int|
                    0 <= k < i ==> !token_matches(#[trigger] self.specs@[k].token@, text@)),
                None => forall|k: int|
                    0 <= k < self.specs@.len() ==> !token_matches(
                        #[trigger] self.specs@[k].token@,
                        text@,
                    ),
            },
    {
        let n: usize = self.specs.len();
        let mut i: usize = 0;
        while i < n
            invariant
                n == self.specs@.len(),
                0 <= i <= n,
                forall|k: int| 0 <= k < i ==> !token_matches(#[trigger] self.specs@[k].token@, text@),
            decreases n - i,
        {
            if matches_token(self.specs[i].token.as_slice(), text) {
                return Some(i);
            }
            i = i + 1;
        }
        None
    }
}

/// A generation command: a token, a model, an optional prompt prefix and
/// the two template flags.
pub fn generation_spec(
    token: &str,
    model_id: &str,
    prompt_prefix: Option<Vec<u8>>,
    protect_mode: bool,
    persona_mode: bool,
) -> (r: CommandSpec)
    ensures
        r.token@ == token.spec_bytes(),
        r.static_reply is None,
        r.model_id matches Some(m) && m@ == model_id.spec_bytes(),
        r.prompt_prefix == prompt_prefix,
        r.protect_mode == protect_mode,
        r.persona_mode == persona_mode,
        !r.help_mode,
{
    CommandSpec {
        token: token.as_bytes_vec(),
        static_reply: None,
        model_id: Some(model_id.as_bytes_vec()),
        prompt_prefix,
        protect_mode,
        persona_mode,
        help_mode: false,
    }
}

/// A static command: a token and its reply template.
pub fn static_spec(token: &str, reply: &str, help_mode: bool) -> (r: CommandSpec)
    ensures
        r.token@ == token.spec_bytes(),
        r.static_reply matches Some(t) && t@ == reply.spec_bytes(),
        r.model_id is None,
        r.prompt_prefix is None,
        !r.protect_mode,
        !r.persona_mode,
        r.help_mode == help_mode,
{
    CommandSpec {
        token: token.as_bytes_vec(),
        static_reply: Some(reply.as_bytes_vec()),
        model_id: None,
        prompt_prefix: None,
        protect_mode: false,
        persona_mode: false,
        help_mode,
    }
}

/// The built-in command table, in declaration order: the help listing, the
/// latency probe, and the generation commands with their models, coding
/// prefixes and template flags.
pub fn default_commands() -> (r: Vec<CommandSpec>)
    ensures
        r@.len() == 7,
        r@[0].token@ == "!help".spec_bytes() && r@[0].help_mode && (
        r@[0].static_reply matches Some(t) && t@ == "Here is a list of commands:".spec_bytes()),
        r@[1].token@ == "!pingb".spec_bytes() && !r@[1].help_mode && (
        r@[1].static_reply matches Some(t) && t@
            == "Pong! (Latency: {:.2}\u{b5}s)".spec_bytes()),
        r@[2].token@ == "!llama".spec_bytes() && (r@[2].model_id matches Some(m) && m@
            == "llama3:8b".spec_bytes()) && r@[2].prompt_prefix is None && !r@[2].protect_mode
            && r@[2].persona_mode,
        r@[3].token@ == "!codel".spec_bytes() && (r@[3].model_id matches Some(m) && m@
            == "llama3:8b".spec_bytes()) && (r@[3].prompt_prefix matches Some(p) && p@
            == coding_prefix()) && r@[3].protect_mode && !r@[3].persona_mode,
        r@[4].token@ == "!ds".spec_bytes() && (r@[4].model_id matches Some(m) && m@
            == "deepseek-r1:14b".spec_bytes()) && r@[4].prompt_prefix is None
            && !r@[4].protect_mode && r@[4].persona_mode,
        r@[5].token@ == "!codeds".spec_bytes() && (r@[5].model_id matches Some(m) && m@
            == "deepseek-r1:14b".spec_bytes()) && (r@[5].prompt_prefix matches Some(p) && p@
            == coding_prefix()) && r@[5].protect_mode && !r@[5].persona_mode,
        r@[6].token@ == "!nop".spec_bytes() && (r@[6].model_id matches Some(m) && m@
            == "wizardlm-uncensored:latest".spec_bytes()) && r@[6].prompt_prefix is None
            && !r@[6].protect_mode && !r@[6].persona_mode,
        forall|i: int| 2 <= i < 7 ==> (#[trigger] r@[i].static_reply) is None && !r@[i].help_mode,
{
    let mut r: Vec<CommandSpec> = Vec::new();
    r.push(static_spec("!help", "Here is a list of commands:", true));
    r.push(static_spec("!pingb", "Pong! (Latency: {:.2}\u{b5}s)", false));
    r.push(generation_spec("!llama", "llama3:8b", None, false, true));
    r.push(
        generation_spec(
            "!codel",
            "llama3:8b",
            Some(coding_prefix_bytes()),
            true,
            false,
        ),
    );
    r.push(generation_spec("!ds", "deepseek-r1:14b", None, false, true));
    r.push(
        generation_spec(
            "!codeds",
            "deepseek-r1:14b",
            Some(coding_prefix_bytes()),
            true,
            false,
        ),
    );
    r.push(generation_spec("!nop", "wizardlm-uncensored:latest", None, false, false));
    r
}

/// The prompt prefix shared by the coding commands.
pub open spec fn coding_prefix() -> Seq<u8> {
    encode_utf8(
        "You are here to assist with programming problems. You are a helpful AI programming assistant.\nHere is a user's problem:\n\n"@,
    )
}

/// The coding prefix, per [`coding_prefix`].
pub fn coding_prefix_bytes() -> (r: Vec<u8>)
    ensures
        r@ == coding_prefix(),
{
    "You are here to assist with programming problems. You are a helpful AI programming assistant.\nHere is a user's problem:\n\n".as_bytes_vec()
}

/// One line of the help listing: the token, followed by the model
/// identifier in parentheses when the spec has one.
pub open spec fn spec_help_line(s: CommandSpec) -> Seq<u8> {
    match s.model_id {
        Some(m) => s.token@ + encode_utf8(" ("@) + m@ + encode_utf8(")"@),
        None => s.token@,
    }
}

/// The lines of the help listing for `specs`, each preceded by a newline,
/// in declaration order.
pub open spec fn spec_help_rest(specs: Seq<CommandSpec>) -> Seq<u8>
    decreases specs.len(),
{
    if specs.len() == 0 {
        Seq::empty()
    } else {
        seq![10u8] + spec_help_line(specs[0]) + spec_help_rest(specs.drop_first())
    }
}

/// The full help text: the header, then one line per spec.
pub open spec fn spec_help_text(header: Seq<u8>, specs: Seq<CommandSpec>) -> Seq<u8> {
    header + spec_help_rest(specs)
}

/// One help line, per [`spec_help_line`].
pub fn render_help_line(s: &CommandSpec) -> (r: Vec<u8>)
    ensures
        r@ == spec_help_line(*s),
{
    let mut r = crate::text::copy_range(s.token.as_slice(), 0, s.token.len());
    assert(r@ =~= s.token@);
    match &s.model_id {
        Some(m) => {
            let mut open = " (".as_bytes_vec();
            r.append(&mut open);
            let mut mid = crate::text::copy_range(m.as_slice(), 0, m.len());
            assert(mid@ =~= m@);
            r.append(&mut mid);
            let mut close = ")".as_bytes_vec();
            r.append(&mut close);
            assert(r@ =~= spec_help_line(*s));
            r
        },
        None => r,
    }
}

/// The rendered help text, per [`spec_help_text`]: `header`, then for each
/// spec one line with its token, and the model identifier when it has one.
pub fn render_help(header: &[u8], store: &TemplateStore) -> (r: Vec<u8>)
    ensures
        r@ == spec_help_text(header@, store.specs@),
{
    let mut out = crate::text::copy_range(header, 0, header.len());
    assert(out@ =~= header@);
    assert(store.specs@.skip(0) =~= store.specs@);
    let n: usize = store.specs.len();
    let mut i: usize = 0;
    while i < n
        invariant
            n == store.specs@.len(),
            0 <= i <= n,
            out@ + spec_help_rest(store.specs@.skip(i as int)) == spec_help_text(
                header@,
                store.specs@,
            ),
        decreases n - i,
    {
        let ghost prev = out@;
        let ghost tail = store.specs@.skip(i as int);
        out.push(10u8);
        let mut line = render_help_line(&store.specs[i]);
        out.append(&mut line);
        i = i + 1;
        proof {
            assert(tail.drop_first() =~= store.specs@.skip(i as int));
            assert(tail[0] == store.specs@[i - 1]);
            assert(spec_help_rest(tail) == seq![10u8] + spec_help_line(tail[0])
                + spec_help_rest(tail.drop_first()));
            assert(out@ + spec_help_rest(store.specs@.skip(i as int)) =~= prev + spec_help_rest(
                tail,
            ));
        }
    }
    proof {
        assert(store.specs@.skip(n as int) =~= Seq::<CommandSpec>::empty());
    }
    out
}

/// Well-formedness test of one spec, per [`spec_wf`].
pub fn check_wf(s: &CommandSpec) -> (r: bool)
    ensures
        r == spec_wf(*s),
{
    if s.token.len() == 0 {
        return false;
    }
    let n: usize = s.token.len();
    let mut i: usize = 0;
    while i < n
        invariant
            n == s.token@.len(),
            0 <= i <= n,
            forall|k: int| 0 <= k < i ==> !is_space(s.token@[k]),
        decreases n - i,
    {
        if crate::text::byte_is_space(s.token[i]) {
            return false;
        }
        i = i + 1;
    }
    let one_of = match (&s.static_reply, &s.model_id) {
        (Some(_), None) => true,
        (None, Some(_)) => true,
        _ => false,
    };
    if !one_of {
        return false;
    }
    if s.help_mode {
        match &s.static_reply {
            Some(_) => true,
            None => false,
        }
    } else {
        true
    }
}

} // verus!
