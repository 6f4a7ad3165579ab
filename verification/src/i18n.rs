//! Translated messages: which message is shown, with which arguments, in which language.
//!
//! What gettext makes of a message depends on the locale and on the catalogues installed, so a
//! decision hands out a [`Message`] and [`Message::render`] asks gettext for its text.

use crate::text::{self, found, matches_at, opt_str_view, opt_view, str_views, views};
use vstd::prelude::*;

verus! {

/// The gettext domain of the application.
pub const GETTEXT_DOMAIN: &'static str = "rustconn";

/// Whether a text can be handed to gettext, which takes no NUL character.
pub open spec fn nul_free(s: Seq<char>) -> bool {
    forall|i: int| 0 <= i < s.len() ==> s[i] != '\0'
}

/// Whether gettext can give `text` for a message: in some locale, with some catalogue, it does.
pub uninterp spec fn may_say(msgid: Seq<char>, text: Seq<char>) -> bool;

/// Whether gettext can give `text` for so many things, by a message's singular and plural forms: in
/// some locale, with some catalogue, it does.
pub uninterp spec fn may_say_plural(
    singular: Seq<char>,
    plural: Seq<char>,
    n: u32,
    text: Seq<char>,
) -> bool;

/// Looks a message up in the current domain.
///
/// Trusted: `gettextrs::gettext`. It panics on a NUL character, which `requires` leaves out, and on
/// a catalogue in another encoding than UTF-8, which binding the domain's codeset rules out at
/// startup. Which text comes back depends on the locale and on the installed catalogues. Claimed is
/// that it is one that gettext can give for this very message, and that it holds no NUL character,
/// since it is read from a C string, which ends at the first one.
#[verifier::external_body]
fn translation(msgid: &str) -> (r: String)
    requires
        nul_free(msgid@),
    ensures
        may_say(msgid@, r@),
        nul_free(r@),
{
    gettextrs::gettext(msgid)
}

/// Looks a message with a plural form up in the current domain.
///
/// Trusted: `gettextrs::ngettext`. What holds of [`translation`] holds here, for both forms and the
/// number.
#[verifier::external_body]
fn plural_translation(msgid: &str, msgid_plural: &str, n: u32) -> (r: String)
    requires
        nul_free(msgid@),
        nul_free(msgid_plural@),
    ensures
        may_say_plural(msgid@, msgid_plural@, n, r@),
        nul_free(r@),
{
    gettextrs::ngettext(msgid, msgid_plural, n)
}

/// `template` with its placeholders filled, left to right: the first `{}` by the first argument, the
/// next one behind it by the next argument. What is put in is not looked at again. A placeholder
/// without an argument stays, an argument without a placeholder is dropped.
pub open spec fn filled(template: Seq<char>, args: Seq<Seq<char>>) -> Seq<char>
    decreases args.len(),
{
    if args.len() == 0 {
        template
    } else {
        match found(template, "{}"@) {
            Some(p) => template.take(p) + args[0] + filled(template.skip(p + 2), args.drop_first()),
            None => template,
        }
    }
}

/// Replaces `{}` placeholders left to right.
pub fn fill_placeholders(template: &str, args: &[&str]) -> (r: String)
    ensures
        r@ == filled(template@, str_views(args@)),
{
    let mut r = String::new();
    let mut rest = template;
    let mut i: usize = 0;
    let ghost all = str_views(args@);
    assert(all.skip(0) =~= all);
    assert(r@ + filled(rest@, all.skip(0)) =~= filled(template@, all));
    while i < args.len()
        invariant
            i <= args@.len(),
            all == str_views(args@),
            r@ + filled(rest@, all.skip(i as int)) == filled(template@, all),
        decreases args@.len() - i,
    {
        let ghost left = all.skip(i as int);
        let ghost before = r@;
        let ghost tail = rest@;
        assert(left.drop_first() =~= all.skip(i + 1));
        assert(left[0] == args@[i as int]@);
        proof {
            reveal_strlit("{}");
        }
        match text::find(rest, "{}") {
            Some(p) => {
                proof {
                    text::lemma_found_from(rest@, "{}"@, 0);
                }
                let n: usize = rest.unicode_len();
                r.append(rest.substring_char(0, p));
                r.append(args[i]);
                rest = rest.substring_char(p + 2, n);
                assert(tail.take(p as int) =~= tail.subrange(0, p as int));
                assert(tail.skip(p + 2) =~= tail.subrange(p + 2, n as int));
                assert(before + filled(tail, left) =~= r@ + filled(rest@, all.skip(i + 1)));
            },
            None => {
                r.append(rest);
                return r;
            },
        }
        i += 1;
    }
    r.append(rest);
    r
}

/// Translates a text.
///
/// The text returned is the catalogue's for this message, whatever it is. It holds no NUL character, so
/// that it can be handed to the toolkit, or translated again.
pub fn i18n(msgid: &str) -> (r: String)
    requires
        nul_free(msgid@),
    ensures
        may_say(msgid@, r@),
        nul_free(r@),
{
    translation(msgid)
}

/// Translates a text and puts arguments into its placeholders.
pub fn i18n_f(msgid: &str, args: &[&str]) -> (r: String)
    requires
        nul_free(msgid@),
    ensures
        exists|template: Seq<char>| #[trigger]
            may_say(msgid@, template) && nul_free(template) && r@ == filled(
                template,
                str_views(args@),
            ),
{
    let template = translation(msgid);
    fill_placeholders(&template, args)
}

/// Translates a text that has a singular and a plural form.
///
/// The text returned is the catalogue's for this message, whatever it is. It holds no NUL character, so
/// that it can be handed to the toolkit, or translated again.
pub fn ni18n(singular: &str, plural: &str, n: u32) -> (r: String)
    requires
        nul_free(singular@),
        nul_free(plural@),
    ensures
        may_say_plural(singular@, plural@, n, r@),
        nul_free(r@),
{
    plural_translation(singular, plural, n)
}

/// Translates a text with a singular and a plural form and puts arguments into its placeholders.
pub fn ni18n_f(singular: &str, plural: &str, n: u32, args: &[&str]) -> (r: String)
    requires
        nul_free(singular@),
        nul_free(plural@),
    ensures
        exists|template: Seq<char>| #[trigger]
            may_say_plural(singular@, plural@, n, template) && nul_free(template) && r@ == filled(
                template,
                str_views(args@),
            ),
{
    let template = plural_translation(singular, plural, n);
    fill_placeholders(&template, args)
}

/// A text to translate, with the arguments for its placeholders.
pub struct Message {
    pub msgid: &'static str,
    /// The arguments, in the order of the placeholders.
    pub args: Vec<String>,
}

/// What a [`Message`] says.
#[verifier::ext_equal]
pub struct MessageView {
    pub msgid: Seq<char>,
    pub args: Seq<Seq<char>>,
}

impl View for Message {
    type V = MessageView;

    open spec fn view(&self) -> MessageView {
        MessageView { msgid: self.msgid@, args: views(self.args@) }
    }
}

/// A message without arguments.
pub open spec fn plain(msgid: Seq<char>) -> MessageView {
    MessageView { msgid, args: Seq::empty() }
}

/// A message with arguments.
pub open spec fn with_args(msgid: Seq<char>, args: Seq<Seq<char>>) -> MessageView {
    MessageView { msgid, args }
}

/// Whether a text can be what a message says in some locale: a text that gettext can give for the
/// message, without a NUL character, with the message's arguments in its placeholders.
pub open spec fn is_said(text: Seq<char>, message: MessageView) -> bool {
    exists|template: Seq<char>| #[trigger]
        may_say(message.msgid, template) && nul_free(template) && text == filled(
            template,
            message.args,
        )
}

impl Message {
    /// A message without arguments.
    pub fn plain(msgid: &'static str) -> (r: Message)
        ensures
            r@ == plain(msgid@),
    {
        let r = Message { msgid, args: Vec::new() };
        assert(r@ =~= plain(msgid@));
        r
    }

    /// A message with one argument.
    pub fn with(msgid: &'static str, arg: &str) -> (r: Message)
        ensures
            r@ == with_args(msgid@, seq![arg@]),
    {
        let mut args: Vec<String> = Vec::new();
        args.push(arg.to_owned());
        let r = Message { msgid, args };
        assert(r@ =~= with_args(msgid@, seq![arg@]));
        r
    }

    /// A message with two arguments.
    pub fn with2(msgid: &'static str, first: &str, second: &str) -> (r: Message)
        ensures
            r@ == with_args(msgid@, seq![first@, second@]),
    {
        let mut args: Vec<String> = Vec::new();
        args.push(first.to_owned());
        args.push(second.to_owned());
        let r = Message { msgid, args };
        assert(r@ =~= with_args(msgid@, seq![first@, second@]));
        r
    }

    /// A copy of the message.
    pub fn copy(&self) -> (r: Message)
        ensures
            r@ == self@,
            r.renderable() == self.renderable(),
    {
        let mut args: Vec<String> = Vec::new();
        text::push_all(&mut args, &self.args);
        let r = Message { msgid: self.msgid, args };
        assert(r@.args =~= self@.args);
        r
    }

    /// Whether gettext takes the message.
    pub open spec fn renderable(&self) -> bool {
        nul_free(self.msgid@)
    }

    /// The text of the message in the current locale.
    pub fn render(&self) -> (r: String)
        requires
            self.renderable(),
        ensures
            is_said(r@, self@),
    {
        let template = translation(self.msgid);
        let mut args: Vec<&str> = Vec::new();
        let mut i: usize = 0;
        while i < self.args.len()
            invariant
                i <= self.args@.len(),
                args@.len() == i,
                forall|j: int| 0 <= j < i ==> args@[j]@ == self.args@[j]@,
            decreases self.args@.len() - i,
        {
            args.push(self.args[i].as_str());
            i += 1;
        }
        assert(str_views(args@) =~= views(self.args@));
        let r = fill_placeholders(&template, args.as_slice());
        assert(r@ == filled(template@, self@.args));
        assert(may_say(self@.msgid, template@));
        r
    }
}

/// A template without placeholders is left alone, whatever the arguments.
pub proof fn law_no_placeholder_no_change(template: Seq<char>, args: Seq<Seq<char>>)
    requires
        found(template, "{}"@) is None,
    ensures
        filled(template, args) == template,
{
}

/// The first placeholder takes the first argument, everything around it is kept, and the other
/// arguments go to the placeholders behind it, whatever the first argument holds.
pub proof fn law_each_placeholder_takes_its_argument(
    before: Seq<char>,
    after: Seq<char>,
    arg: Seq<char>,
    more: Seq<Seq<char>>,
)
    requires
        found(before, "{}"@) is None,
        before.len() > 0 ==> before.last() != '{',
    ensures
        filled(before + "{}"@ + after, seq![arg] + more) == before + arg + filled(after, more),
{
    reveal_strlit("{}");
    let t = before + "{}"@ + after;
    let p = before.len() as int;
    assert(t.subrange(p, p + 2) =~= "{}"@);
    text::lemma_found_from(before, "{}"@, 0);
    assert forall|j: int| 0 <= j < p implies !matches_at(t, "{}"@, j) by {
        if matches_at(t, "{}"@, j) {
            assert(t.subrange(j, j + 2)[0] == '{');
            assert(t[j] == before[j]);
            if j + 1 < p {
                assert(before.subrange(j, j + 2) =~= t.subrange(j, j + 2));
                assert(matches_at(before, "{}"@, j));
            }
        }
    }
    text::lemma_found_is(t, "{}"@, p);
    assert((seq![arg] + more).drop_first() =~= more);
    assert(t.take(p) =~= before);
    assert(t.skip(p + 2) =~= after);
}

/// The languages offered, with their own names. The first entry follows the system.
pub open spec fn languages() -> Seq<(Seq<char>, Seq<char>)> {
    seq![
        ("system"@, "System"@),
        ("be"@, "Беларуская"@),
        ("cs"@, "Čeština"@),
        ("da"@, "Dansk"@),
        ("de"@, "Deutsch"@),
        ("en"@, "English"@),
        ("es"@, "Español"@),
        ("fr"@, "Français"@),
        ("it"@, "Italiano"@),
        ("kk"@, "Қазақша"@),
        ("nl"@, "Nederlands"@),
        ("pl"@, "Polski"@),
        ("pt"@, "Português"@),
        ("sk"@, "Slovenčina"@),
        ("sv"@, "Svenska"@),
        ("uk"@, "Українська"@),
        ("zh-cn"@, "简体中文"@),
    ]
}

/// Lists the languages offered as `(code, name)` pairs.
pub fn available_languages() -> (r: Vec<(&'static str, &'static str)>)
    ensures
        r@.len() == languages().len(),
        forall|i: int|
            0 <= i < r@.len() ==> (#[trigger] r@[i]).0@ == languages()[i].0 && r@[i].1@
                == languages()[i].1,
{
    vec![
        ("system", "System"),
        ("be", "Беларуская"),
        ("cs", "Čeština"),
        ("da", "Dansk"),
        ("de", "Deutsch"),
        ("en", "English"),
        ("es", "Español"),
        ("fr", "Français"),
        ("it", "Italiano"),
        ("kk", "Қазақша"),
        ("nl", "Nederlands"),
        ("pl", "Polski"),
        ("pt", "Português"),
        ("sk", "Slovenčina"),
        ("sv", "Svenska"),
        ("uk", "Українська"),
        ("zh-cn", "简体中文"),
    ]
}

/// The territory form of a language code, the code itself where none is known.
pub open spec fn territory_of(lang: Seq<char>) -> Seq<char> {
    if lang == "be"@ {
        "be_BY"@
    } else if lang == "cs"@ {
        "cs_CZ"@
    } else if lang == "da"@ {
        "da_DK"@
    } else if lang == "de"@ {
        "de_DE"@
    } else if lang == "en"@ {
        "en_US"@
    } else if lang == "es"@ {
        "es_ES"@
    } else if lang == "fr"@ {
        "fr_FR"@
    } else if lang == "it"@ {
        "it_IT"@
    } else if lang == "kk"@ {
        "kk_KZ"@
    } else if lang == "nl"@ {
        "nl_NL"@
    } else if lang == "pl"@ {
        "pl_PL"@
    } else if lang == "pt"@ {
        "pt_PT"@
    } else if lang == "sk"@ {
        "sk_SK"@
    } else if lang == "sv"@ {
        "sv_SE"@
    } else if lang == "uk"@ {
        "uk_UA"@
    } else if lang == "zh-cn"@ {
        "zh_CN"@
    } else {
        lang
    }
}

/// Maps a language code to the locale name that `setlocale` takes.
pub fn lang_to_locale(lang: &str) -> (r: String)
    ensures
        r@ == territory_of(lang@) + ".UTF-8"@,
{
    let full = if text::same(lang, "be") {
        "be_BY"
    } else if text::same(lang, "cs") {
        "cs_CZ"
    } else if text::same(lang, "da") {
        "da_DK"
    } else if text::same(lang, "de") {
        "de_DE"
    } else if text::same(lang, "en") {
        "en_US"
    } else if text::same(lang, "es") {
        "es_ES"
    } else if text::same(lang, "fr") {
        "fr_FR"
    } else if text::same(lang, "it") {
        "it_IT"
    } else if text::same(lang, "kk") {
        "kk_KZ"
    } else if text::same(lang, "nl") {
        "nl_NL"
    } else if text::same(lang, "pl") {
        "pl_PL"
    } else if text::same(lang, "pt") {
        "pt_PT"
    } else if text::same(lang, "sk") {
        "sk_SK"
    } else if text::same(lang, "sv") {
        "sv_SE"
    } else if text::same(lang, "uk") {
        "uk_UA"
    } else if text::same(lang, "zh-cn") {
        "zh_CN"
    } else {
        lang
    };
    text::join(full, ".UTF-8")
}

/// What startup does about the configured language.
#[derive(Clone, Copy, Debug, PartialEq, Eq, Structural)]
pub enum LanguageStep {
    /// The system locale, which is in effect already.
    KeepSystem,
    /// Apply the language with `setlocale`.
    SetLocale,
    /// Start the program again with `LANGUAGE` and the sentinel set.
    ReExec,
}

/// The decision of [`language_step`].
pub open spec fn language_step_of(
    lang: Option<Seq<char>>,
    language_var: Option<Seq<char>>,
    sentinel: Option<Seq<char>>,
) -> LanguageStep {
    match lang {
        None => LanguageStep::KeepSystem,
        Some(l) => if l.len() == 0 || l == "system"@ {
            LanguageStep::KeepSystem
        } else if language_var == Some(l) || sentinel == Some("1"@) {
            LanguageStep::SetLocale
        } else {
            LanguageStep::ReExec
        },
    }
}

/// Decides how the configured language is applied.
///
/// `language_var` is what `LANGUAGE` holds, `sentinel` what `_RUSTCONN_LANG_SET` holds.
pub fn language_step(
    lang: Option<&str>,
    language_var: Option<&str>,
    sentinel: Option<&str>,
) -> (r: LanguageStep)
    ensures
        r == language_step_of(
            opt_str_view(lang),
            opt_str_view(language_var),
            opt_str_view(sentinel),
        ),
{
    let l = match lang {
        Some(l) => l,
        None => return LanguageStep::KeepSystem,
    };
    if l.is_empty() || text::same(l, "system") {
        return LanguageStep::KeepSystem;
    }
    if let Some(v) = language_var {
        if text::same(v, l) {
            return LanguageStep::SetLocale;
        }
    }
    if let Some(v) = sentinel {
        if text::same(v, "1") {
            return LanguageStep::SetLocale;
        }
    }
    LanguageStep::ReExec
}

/// A child started by [`LanguageStep::ReExec`] inherits `LANGUAGE` and the sentinel, so it never
/// starts another one.
pub proof fn law_re_exec_happens_once(
    lang: Seq<char>,
    language_var: Option<Seq<char>>,
    sentinel: Option<Seq<char>>,
)
    requires
        language_step_of(Some(lang), language_var, sentinel) == LanguageStep::ReExec,
    ensures
        language_step_of(Some(lang), Some(lang), Some("1"@)) == LanguageStep::SetLocale,
        forall|other: Option<Seq<char>>|
            language_step_of(other, Some(lang), Some("1"@)) != LanguageStep::ReExec,
{
}

/// The locale handed to `setlocale(LC_MESSAGES)` for a language: empty for the system's own.
pub open spec fn messages_locale_of(lang: Seq<char>) -> Seq<char> {
    if lang.len() == 0 || lang == "system"@ {
        Seq::empty()
    } else {
        territory_of(lang) + ".UTF-8"@
    }
}

/// The locale to ask for first.
pub fn messages_locale(lang: &str) -> (r: String)
    ensures
        r@ == messages_locale_of(lang@),
{
    if lang.is_empty() || text::same(lang, "system") {
        String::new()
    } else {
        lang_to_locale(lang)
    }
}

/// What follows a call of `setlocale`: a named locale that is not installed falls back to the
/// system's own, which is the empty name, and nothing else is tried.
pub fn messages_locale_retry(asked: &str, applied: bool) -> (r: Option<String>)
    ensures
        text::opt_view(r) == (if asked@.len() > 0 && !applied {
            Some(Seq::<char>::empty())
        } else {
            None
        }),
{
    if !asked.is_empty() && !applied {
        Some(String::new())
    } else {
        None
    }
}

/// What a directory must hold for translations to be read from it.
#[derive(Clone, Copy, Debug, PartialEq, Eq, Structural)]
pub enum LocaleCheck {
    /// Taken as it is.
    Nothing,
    /// It must exist.
    Exists,
    /// It must hold a compiled catalogue of the domain.
    HasCatalogue,
}

/// A directory that may hold the translations.
pub struct LocaleCandidate {
    pub path: String,
    pub check: LocaleCheck,
}

/// What the environment says about where translations may be.
pub struct LocaleEnv {
    /// `LOCALEDIR`.
    pub localedir: Option<String>,
    /// The directory the build compiled catalogues to.
    pub build_dir: Option<String>,
    /// `Contents/Resources/locale` of the application bundle, on macOS.
    pub bundle_dir: Option<String>,
    /// `SNAP`.
    pub snap: Option<String>,
    /// `HOME`.
    pub home: Option<String>,
    /// `XDG_DATA_HOME`.
    pub xdg_data: Option<String>,
}

/// A candidate as a path and its check.
pub open spec fn candidate_view(c: LocaleCandidate) -> (Seq<char>, LocaleCheck) {
    (c.path@, c.check)
}

/// The views of several candidates.
pub open spec fn candidate_views(v: Seq<LocaleCandidate>) -> Seq<(Seq<char>, LocaleCheck)> {
    Seq::new(v.len(), |i: int| candidate_view(v[i]))
}

/// One candidate where a variable is set, none where it is not.
pub open spec fn optional_candidate(
    base: Option<String>,
    suffix: Seq<char>,
    check: LocaleCheck,
) -> Seq<(Seq<char>, LocaleCheck)> {
    match base {
        Some(b) => seq![(b@ + suffix, check)],
        None => Seq::empty(),
    }
}

/// The candidates in the order in which they are tried.
pub open spec fn candidates_of(env: LocaleEnv) -> Seq<(Seq<char>, LocaleCheck)> {
    optional_candidate(env.localedir, Seq::empty(), LocaleCheck::Nothing) + (match env.build_dir {
        Some(b) if b@.len() > 0 => seq![(b@, LocaleCheck::HasCatalogue)],
        _ => Seq::empty(),
    }) + optional_candidate(env.bundle_dir, Seq::empty(), LocaleCheck::HasCatalogue) + seq![
        ("/app/share/locale"@, LocaleCheck::Exists),
    ] + optional_candidate(env.snap, "/share/locale"@, LocaleCheck::Exists) + optional_candidate(
        env.home,
        "/.local/share/locale"@,
        LocaleCheck::HasCatalogue,
    ) + optional_candidate(env.xdg_data, "/locale"@, LocaleCheck::HasCatalogue) + seq![
        ("/usr/share/locale"@, LocaleCheck::Nothing),
    ]
}

fn push_candidate(
    v: &mut Vec<LocaleCandidate>,
    base: &Option<String>,
    suffix: &str,
    check: LocaleCheck,
)
    ensures
        candidate_views(final(v)@) == candidate_views(old(v)@) + optional_candidate(
            *base,
            suffix@,
            check,
        ),
{
    if let Some(b) = base {
        v.push(LocaleCandidate { path: text::join(b, suffix), check });
    }
    assert(candidate_views(v@) =~= candidate_views(old(v)@) + optional_candidate(
        *base,
        suffix@,
        check,
    ));
}

/// Whether a directory's extension is that of an application bundle, in whatever case.
pub open spec fn is_bundle_extension(extension: Seq<char>) -> bool {
    &&& extension.len() == 3
    &&& extension[0] == 'a' || extension[0] == 'A'
    &&& extension[1] == 'p' || extension[1] == 'P'
    &&& extension[2] == 'p' || extension[2] == 'P'
}

/// The directory of the catalogues in an application bundle, if the directory that holds `contents`
/// is one by its extension.
pub fn bundle_locale_dir(extension: Option<&str>, contents: &str) -> (r: Option<String>)
    ensures
        opt_view(r) == (match opt_str_view(extension) {
            Some(e) => if is_bundle_extension(e) {
                Some(contents@ + "/Resources/locale"@)
            } else {
                None
            },
            None => None,
        }),
{
    if let Some(e) = extension {
        if e.unicode_len() == 3 && (e.get_char(0) == 'a' || e.get_char(0) == 'A') && (e.get_char(1)
            == 'p' || e.get_char(1) == 'P') && (e.get_char(2) == 'p' || e.get_char(2) == 'P') {
            return Some(text::join(contents, "/Resources/locale"));
        }
    }
    None
}

/// Lists the directories to try, in order. An explicit override comes first and needs no check.
pub fn locale_candidates(env: &LocaleEnv) -> (r: Vec<LocaleCandidate>)
    ensures
        candidate_views(r@) == candidates_of(*env),
{
    proof {
        reveal_strlit("");
    }
    let mut v: Vec<LocaleCandidate> = Vec::new();
    assert(""@ =~= Seq::<char>::empty());
    push_candidate(&mut v, &env.localedir, "", LocaleCheck::Nothing);
    let ghost first = candidate_views(v@);
    if let Some(b) = &env.build_dir {
        if !b.as_str().is_empty() {
            v.push(LocaleCandidate { path: b.clone(), check: LocaleCheck::HasCatalogue });
        }
    }
    let ghost second = candidate_views(v@);
    push_candidate(&mut v, &env.bundle_dir, "", LocaleCheck::HasCatalogue);
    let ghost third = candidate_views(v@);
    v.push(LocaleCandidate { path: "/app/share/locale".to_owned(), check: LocaleCheck::Exists });
    assert(candidate_views(v@) =~= third + seq![("/app/share/locale"@, LocaleCheck::Exists)]);
    push_candidate(&mut v, &env.snap, "/share/locale", LocaleCheck::Exists);
    push_candidate(&mut v, &env.home, "/.local/share/locale", LocaleCheck::HasCatalogue);
    push_candidate(&mut v, &env.xdg_data, "/locale", LocaleCheck::HasCatalogue);
    let ghost last = candidate_views(v@);
    v.push(LocaleCandidate { path: "/usr/share/locale".to_owned(), check: LocaleCheck::Nothing });
    assert(candidate_views(v@) =~= last + seq![("/usr/share/locale"@, LocaleCheck::Nothing)]);
    assert(candidate_views(v@) =~= candidates_of(*env));
    v
}

/// Whether candidate `i` is taken when it is reached.
pub open spec fn accepted(c: Seq<(Seq<char>, LocaleCheck)>, held: Seq<bool>, i: int) -> bool {
    c[i].1 == LocaleCheck::Nothing || held[i]
}

/// Whether a directory is the path of the first candidate that needs no check or whose check held,
/// and missing where there is none.
pub open spec fn is_first_that_holds(
    candidates: Seq<LocaleCandidate>,
    held: Seq<bool>,
    dir: Option<String>,
) -> bool {
    match dir {
        Some(path) => exists|i: int|
            0 <= i < candidates.len() && (#[trigger] candidates[i]).path@ == path@ && (
            candidates[i].check == LocaleCheck::Nothing || held[i]) && forall|j: int|
                0 <= j < i ==> (#[trigger] candidates[j]).check != LocaleCheck::Nothing && !held[j],
        None => forall|j: int|
            0 <= j < candidates.len() ==> (#[trigger] candidates[j]).check != LocaleCheck::Nothing
                && !held[j],
    }
}

/// Picks the first candidate whose check holds; `held` says so for each of them.
pub fn locale_dir(candidates: &Vec<LocaleCandidate>, held: &Vec<bool>) -> (r: Option<String>)
    requires
        candidates@.len() == held@.len(),
    ensures
        match r {
            Some(path) => exists|i: int|
                0 <= i < candidates@.len() && accepted(candidate_views(candidates@), held@, i)
                    && path@ == candidates@[i].path@ && forall|j: int|
                    0 <= j < i ==> !accepted(candidate_views(candidates@), held@, j),
            None => forall|j: int|
                0 <= j < candidates@.len() ==> !accepted(candidate_views(candidates@), held@, j),
        },
        is_first_that_holds(candidates@, held@, r),
{
    let mut i: usize = 0;
    while i < candidates.len()
        invariant
            i <= candidates@.len() == held@.len(),
            forall|j: int|
                0 <= j < i ==> (#[trigger] candidates@[j]).check != LocaleCheck::Nothing
                    && !held@[j],
            forall|j: int| 0 <= j < i ==> !accepted(candidate_views(candidates@), held@, j),
        decreases candidates@.len() - i,
    {
        if candidates[i].check == LocaleCheck::Nothing || held[i] {
            assert(accepted(candidate_views(candidates@), held@, i as int));
            return Some(candidates[i].path.clone());
        }
        i += 1;
    }
    None
}

/// However the checks come out, one of the directories listed is taken: the system's own needs
/// none.
pub proof fn law_some_locale_dir_is_taken(env: LocaleEnv, held: Seq<bool>)
    requires
        held.len() == candidates_of(env).len(),
    ensures
        exists|i: int| 0 <= i < held.len() && #[trigger] accepted(candidates_of(env), held, i),
{
    let last = candidates_of(env).len() - 1;
    assert(candidates_of(env)[last].1 == LocaleCheck::Nothing);
    assert(accepted(candidates_of(env), held, last));
}

/// An explicit override is taken before anything is looked at.
pub proof fn law_explicit_locale_dir_wins(env: LocaleEnv, held: Seq<bool>)
    requires
        env.localedir is Some,
    ensures
        candidates_of(env)[0] == (env.localedir->0@, LocaleCheck::Nothing),
        accepted(candidates_of(env), held, 0),
{
    assert(env.localedir->0@ + Seq::<char>::empty() =~= env.localedir->0@);
}

/// Without arguments nothing is put into a template, and what no placeholder asks for is left out.
pub proof fn law_nothing_is_filled_without_arguments(template: &str, args: &[&str], r: String)
    requires
        call_ensures(fill_placeholders, (template, args), r),
    ensures
        args@.len() == 0 ==> r@ == template@,
        found(template@, "{}"@) is None ==> r@ == template@,
{
    assert(str_views(args@).len() == args@.len());
}

/// A message says what it was made with.
pub proof fn law_message_says_what_it_was_made_with(
    msgid: &'static str,
    first: &str,
    second: &str,
    none: Message,
    one: Message,
    two: Message,
    again: Message,
)
    requires
        call_ensures(Message::plain, (msgid,), none),
        call_ensures(Message::with, (msgid, first), one),
        call_ensures(Message::with2, (msgid, first, second), two),
        call_ensures(Message::copy, (&two,), again),
    ensures
        none@.msgid == msgid@ && none@.args.len() == 0,
        one@.msgid == msgid@ && one@.args == seq![first@],
        two@.msgid == msgid@ && two@.args == seq![first@, second@],
        again@.msgid == msgid@ && again@.args == seq![first@, second@],
{
}

/// Every language that is offered but the system's own has a territory of its own: its code, an
/// underscore and two capitals; the first entry stands for the system.
pub proof fn law_offered_languages_have_a_locale(
    r: Vec<(&'static str, &'static str)>,
    i: int,
    locale: String,
)
    requires
        call_ensures(available_languages, (), r),
        0 <= i < r@.len(),
        call_ensures(lang_to_locale, (r@[i].0,), locale),
    ensures
        r@.len() == 17,
        r@[0].0@ == "system"@,
        i > 0 ==> locale@.len() == 11,
        i > 0 ==> locale@[0] == r@[i].0@[0] && locale@[1] == r@[i].0@[1] && locale@[2] == '_',
        i > 0 ==> locale@.skip(5) == ".UTF-8"@,
{
    lemma_language_codes();
    assert(languages().len() == 17);
    reveal_strlit(".UTF-8");
    assert(r@[i].0@ == languages()[i].0);
    if i > 0 {
        let t = territory_of(r@[i].0@);
        assert(t.len() == 5 && t[0] == r@[i].0@[0] && t[1] == r@[i].0@[1] && t[2] == '_') by {
            assert(i == 1 || i == 2 || i == 3 || i == 4 || i == 5 || i == 6 || i == 7 || i == 8 || i == 9
                || i == 10 || i == 11 || i == 12 || i == 13 || i == 14 || i == 15 || i == 16);
        }
        assert(locale@.skip(5) =~= ".UTF-8"@);
    }
}

proof fn lemma_language_codes()
    ensures
        forall|i: int|
            0 < i < 17 ==> {
                let code = (#[trigger] languages()[i]).0;
                let t = territory_of(code);
                t.len() == 5 && t[0] == code[0] && t[1] == code[1] && t[2] == '_'
            },
{
    reveal_strlit("be");
    reveal_strlit("cs");
    reveal_strlit("da");
    reveal_strlit("de");
    reveal_strlit("en");
    reveal_strlit("es");
    reveal_strlit("fr");
    reveal_strlit("it");
    reveal_strlit("kk");
    reveal_strlit("nl");
    reveal_strlit("pl");
    reveal_strlit("pt");
    reveal_strlit("sk");
    reveal_strlit("sv");
    reveal_strlit("uk");
    reveal_strlit("zh-cn");
    reveal_strlit("be_BY");
    reveal_strlit("cs_CZ");
    reveal_strlit("da_DK");
    reveal_strlit("de_DE");
    reveal_strlit("en_US");
    reveal_strlit("es_ES");
    reveal_strlit("fr_FR");
    reveal_strlit("it_IT");
    reveal_strlit("kk_KZ");
    reveal_strlit("nl_NL");
    reveal_strlit("pl_PL");
    reveal_strlit("pt_PT");
    reveal_strlit("sk_SK");
    reveal_strlit("sv_SE");
    reveal_strlit("uk_UA");
    reveal_strlit("zh_CN");
    assert forall|i: int| 0 < i < 17 implies {
        let code = (#[trigger] languages()[i]).0;
        let t = territory_of(code);
        t.len() == 5 && t[0] == code[0] && t[1] == code[1] && t[2] == '_'
    } by {
        assert(i == 1 || i == 2 || i == 3 || i == 4 || i == 5 || i == 6 || i == 7 || i == 8 || i == 9 || i
            == 10 || i == 11 || i == 12 || i == 13 || i == 14 || i == 15 || i == 16);
    }
}

/// A language that is not known is a locale by itself.
pub proof fn law_unknown_language_is_its_own_territory(lang: &str, r: String)
    requires
        call_ensures(lang_to_locale, (lang,), r),
        forall|i: int| 0 < i < 17 ==> lang@ != (#[trigger] languages()[i]).0,
    ensures
        r@ == lang@ + ".UTF-8"@,
{
    assert(languages()[1].0 == "be"@ && languages()[2].0 == "cs"@ && languages()[3].0 == "da"@);
    assert(languages()[4].0 == "de"@ && languages()[5].0 == "en"@ && languages()[6].0 == "es"@);
    assert(languages()[7].0 == "fr"@ && languages()[8].0 == "it"@ && languages()[9].0 == "kk"@);
    assert(languages()[10].0 == "nl"@ && languages()[11].0 == "pl"@ && languages()[12].0 == "pt"@);
    assert(languages()[13].0 == "sk"@ && languages()[14].0 == "sv"@ && languages()[15].0 == "uk"@);
    assert(languages()[16].0 == "zh-cn"@);
}

/// The system's language is kept exactly where none, an empty one or the system's is configured; any
/// other one is applied, by starting again exactly where the environment does not have it yet and the
/// program was not started again for it.
pub proof fn law_language_is_applied(
    lang: Option<&str>,
    var: Option<&str>,
    sentinel: Option<&str>,
    r: LanguageStep,
)
    requires
        call_ensures(language_step, (lang, var, sentinel), r),
    ensures
        r == LanguageStep::KeepSystem <==> (lang matches Some(l) ==> l@.len() == 0 || l@ == "system"@),
        r == LanguageStep::ReExec <==> (lang matches Some(l) && l@.len() > 0 && l@ != "system"@ && !(
        var matches Some(v) && v@ == l@) && !(sentinel matches Some(s) && s@ == "1"@)),
{
}

/// The locale that is asked for is the language's, and the empty one for the system's own; a locale
/// that is not installed is followed by the system's, and by nothing else.
pub proof fn law_locale_falls_back_to_the_systems(
    lang: &str,
    asked: String,
    named: String,
    tried: &str,
    applied: bool,
    retry: Option<String>,
)
    requires
        call_ensures(messages_locale, (lang,), asked),
        call_ensures(lang_to_locale, (lang,), named),
        call_ensures(messages_locale_retry, (tried, applied), retry),
    ensures
        lang@.len() == 0 || lang@ == "system"@ ==> asked@.len() == 0,
        lang@.len() > 0 && lang@ != "system"@ ==> asked@ == named@,
        retry is Some <==> tried@.len() > 0 && !applied,
        retry matches Some(next) ==> next@.len() == 0,
{
    assert(text::opt_view(retry) is Some <==> retry is Some);
}

/// A bundle is known by its extension in whatever case, and only then are its catalogues looked for.
pub proof fn law_bundle_is_known_by_its_extension(
    extension: Option<&str>,
    contents: &str,
    r: Option<String>,
)
    requires
        call_ensures(bundle_locale_dir, (extension, contents), r),
    ensures
        r is Some <==> (extension matches Some(e) && e@.len() == 3 && (e@[0] == 'a' || e@[0] == 'A') && (
        e@[1] == 'p' || e@[1] == 'P') && (e@[2] == 'p' || e@[2] == 'P')),
        r matches Some(dir) ==> dir@ == contents@ + "/Resources/locale"@,
{
    assert(opt_view(r) is Some <==> r is Some);
}

/// Each place that the environment names is tried, in its order and with its check: the override as it
/// is, then the build's and the bundle's where they hold a catalogue, the sandbox's, the snap's, the
/// user's, and last the system's as it is.
pub proof fn law_every_named_place_is_tried(env: &LocaleEnv, r: Vec<LocaleCandidate>)
    requires
        call_ensures(locale_candidates, (env,), r),
    ensures
        ({
            let all = candidate_views(r@);
            let last = r@.len() - 1;
            &&& r@.len() > 0
            &&& all[last] == ("/usr/share/locale"@, LocaleCheck::Nothing)
            &&& all.contains(("/app/share/locale"@, LocaleCheck::Exists))
            &&& (env.localedir matches Some(d) ==> all[0] == (d@, LocaleCheck::Nothing))
            &&& (env.build_dir matches Some(d) ==> d@.len() > 0 ==> all.contains(
                (d@, LocaleCheck::HasCatalogue),
            ))
            &&& (env.bundle_dir matches Some(d) ==> all.contains((d@, LocaleCheck::HasCatalogue)))
            &&& (env.snap matches Some(d) ==> all.contains(
                (d@ + "/share/locale"@, LocaleCheck::Exists),
            ))
            &&& (env.home matches Some(d) ==> all.contains(
                (d@ + "/.local/share/locale"@, LocaleCheck::HasCatalogue),
            ))
            &&& (env.xdg_data matches Some(d) ==> all.contains(
                (d@ + "/locale"@, LocaleCheck::HasCatalogue),
            ))
            &&& r@.len() == 2 + one_if(env.localedir is Some) + one_if(
                env.build_dir matches Some(d) && d@.len() > 0,
            ) + one_if(env.bundle_dir is Some) + one_if(env.snap is Some) + one_if(env.home is Some)
                + one_if(env.xdg_data is Some)
        }),
{
    broadcast use vstd::seq_lib::lemma_seq_concat_contains_all_elements;

    let all = candidate_views(r@);
    assert(all.len() == r@.len());
    assert(all[all.len() - 1] == ("/usr/share/locale"@, LocaleCheck::Nothing));
    let app = seq![("/app/share/locale"@, LocaleCheck::Exists)];
    assert(app[0] == ("/app/share/locale"@, LocaleCheck::Exists));
    assert(app.contains(("/app/share/locale"@, LocaleCheck::Exists)));
    if let Some(d) = env.localedir {
        let one = optional_candidate(env.localedir, Seq::empty(), LocaleCheck::Nothing);
        assert(d@ + Seq::<char>::empty() =~= d@);
        assert(one[0] == (d@, LocaleCheck::Nothing));
    }
    if let Some(d) = env.build_dir {
        if d@.len() > 0 {
            let one = seq![(d@, LocaleCheck::HasCatalogue)];
            assert(one[0] == (d@, LocaleCheck::HasCatalogue));
            assert(one.contains((d@, LocaleCheck::HasCatalogue)));
        }
    }
    if let Some(d) = env.bundle_dir {
        let one = optional_candidate(env.bundle_dir, Seq::empty(), LocaleCheck::HasCatalogue);
        assert(d@ + Seq::<char>::empty() =~= d@);
        assert(one[0] == (d@, LocaleCheck::HasCatalogue));
        assert(one.contains((d@, LocaleCheck::HasCatalogue)));
    }
    if let Some(d) = env.snap {
        let one = optional_candidate(env.snap, "/share/locale"@, LocaleCheck::Exists);
        assert(one[0] == (d@ + "/share/locale"@, LocaleCheck::Exists));
        assert(one.contains((d@ + "/share/locale"@, LocaleCheck::Exists)));
    }
    if let Some(d) = env.home {
        let one = optional_candidate(env.home, "/.local/share/locale"@, LocaleCheck::HasCatalogue);
        assert(one[0] == (d@ + "/.local/share/locale"@, LocaleCheck::HasCatalogue));
        assert(one.contains((d@ + "/.local/share/locale"@, LocaleCheck::HasCatalogue)));
    }
    if let Some(d) = env.xdg_data {
        let one = optional_candidate(env.xdg_data, "/locale"@, LocaleCheck::HasCatalogue);
        assert(one[0] == (d@ + "/locale"@, LocaleCheck::HasCatalogue));
        assert(one.contains((d@ + "/locale"@, LocaleCheck::HasCatalogue)));
    }
}

/// One where a condition holds.
pub open spec fn one_if(on: bool) -> int {
    if on {
        1
    } else {
        0
    }
}

/// The directory that is taken is the first that needs no check or whose check held.
pub proof fn law_first_place_that_holds_is_taken(
    candidates: &Vec<LocaleCandidate>,
    held: &Vec<bool>,
    r: Option<String>,
)
    requires
        candidates@.len() == held@.len(),
        call_ensures(locale_dir, (candidates, held), r),
    ensures
        match r {
            Some(path) => exists|i: int|
                0 <= i < candidates@.len() && (#[trigger] candidates@[i]).path@ == path@ && (
                candidates@[i].check == LocaleCheck::Nothing || held@[i]) && forall|j: int|
                    0 <= j < i ==> (#[trigger] candidates@[j]).check != LocaleCheck::Nothing
                        && !held@[j],
            None => forall|j: int|
                0 <= j < candidates@.len() ==> (#[trigger] candidates@[j]).check
                    != LocaleCheck::Nothing && !held@[j],
        },
{
    assert(is_first_that_holds(candidates@, held@, r));
}

/// Each language that is offered is spoken in its own territory; Chinese, whose code names the
/// territory already, takes it from there.
pub proof fn law_language_has_its_territory(lang: &str, r: String)
    requires
        call_ensures(lang_to_locale, (lang,), r),
    ensures
        lang@ == "be"@ ==> r@ == "be_BY"@ + ".UTF-8"@,
        lang@ == "cs"@ ==> r@ == "cs_CZ"@ + ".UTF-8"@,
        lang@ == "da"@ ==> r@ == "da_DK"@ + ".UTF-8"@,
        lang@ == "de"@ ==> r@ == "de_DE"@ + ".UTF-8"@,
        lang@ == "en"@ ==> r@ == "en_US"@ + ".UTF-8"@,
        lang@ == "es"@ ==> r@ == "es_ES"@ + ".UTF-8"@,
        lang@ == "fr"@ ==> r@ == "fr_FR"@ + ".UTF-8"@,
        lang@ == "it"@ ==> r@ == "it_IT"@ + ".UTF-8"@,
        lang@ == "kk"@ ==> r@ == "kk_KZ"@ + ".UTF-8"@,
        lang@ == "nl"@ ==> r@ == "nl_NL"@ + ".UTF-8"@,
        lang@ == "pl"@ ==> r@ == "pl_PL"@ + ".UTF-8"@,
        lang@ == "pt"@ ==> r@ == "pt_PT"@ + ".UTF-8"@,
        lang@ == "sk"@ ==> r@ == "sk_SK"@ + ".UTF-8"@,
        lang@ == "sv"@ ==> r@ == "sv_SE"@ + ".UTF-8"@,
        lang@ == "uk"@ ==> r@ == "uk_UA"@ + ".UTF-8"@,
        lang@ == "zh-cn"@ ==> r@ == "zh_CN"@ + ".UTF-8"@,
{
    reveal_strlit("be");
    assert("be"@[0] == 'b' && "be"@[1] == 'e');
    reveal_strlit("cs");
    assert("cs"@[0] == 'c' && "cs"@[1] == 's');
    reveal_strlit("da");
    assert("da"@[0] == 'd' && "da"@[1] == 'a');
    reveal_strlit("de");
    assert("de"@[0] == 'd' && "de"@[1] == 'e');
    reveal_strlit("en");
    assert("en"@[0] == 'e' && "en"@[1] == 'n');
    reveal_strlit("es");
    assert("es"@[0] == 'e' && "es"@[1] == 's');
    reveal_strlit("fr");
    assert("fr"@[0] == 'f' && "fr"@[1] == 'r');
    reveal_strlit("it");
    assert("it"@[0] == 'i' && "it"@[1] == 't');
    reveal_strlit("kk");
    assert("kk"@[0] == 'k' && "kk"@[1] == 'k');
    reveal_strlit("nl");
    assert("nl"@[0] == 'n' && "nl"@[1] == 'l');
    reveal_strlit("pl");
    assert("pl"@[0] == 'p' && "pl"@[1] == 'l');
    reveal_strlit("pt");
    assert("pt"@[0] == 'p' && "pt"@[1] == 't');
    reveal_strlit("sk");
    assert("sk"@[0] == 's' && "sk"@[1] == 'k');
    reveal_strlit("sv");
    assert("sv"@[0] == 's' && "sv"@[1] == 'v');
    reveal_strlit("uk");
    assert("uk"@[0] == 'u' && "uk"@[1] == 'k');
    reveal_strlit("zh-cn");
    assert("zh-cn"@[0] == 'z');
}

/// Languages are offered under their own names, in the order of their codes, behind the system's.
pub proof fn law_languages_have_their_own_names(r: Vec<(&'static str, &'static str)>)
    requires
        call_ensures(available_languages, (), r),
    ensures
        r@.len() == 17,
        r@[0].0@ == "system"@ && r@[0].1@ == "System"@,
        r@[1].0@ == "be"@ && r@[1].1@ == "Беларуская"@,
        r@[2].0@ == "cs"@ && r@[2].1@ == "Čeština"@,
        r@[3].0@ == "da"@ && r@[3].1@ == "Dansk"@,
        r@[4].0@ == "de"@ && r@[4].1@ == "Deutsch"@,
        r@[5].0@ == "en"@ && r@[5].1@ == "English"@,
        r@[6].0@ == "es"@ && r@[6].1@ == "Español"@,
        r@[7].0@ == "fr"@ && r@[7].1@ == "Français"@,
        r@[8].0@ == "it"@ && r@[8].1@ == "Italiano"@,
        r@[9].0@ == "kk"@ && r@[9].1@ == "Қазақша"@,
        r@[10].0@ == "nl"@ && r@[10].1@ == "Nederlands"@,
        r@[11].0@ == "pl"@ && r@[11].1@ == "Polski"@,
        r@[12].0@ == "pt"@ && r@[12].1@ == "Português"@,
        r@[13].0@ == "sk"@ && r@[13].1@ == "Slovenčina"@,
        r@[14].0@ == "sv"@ && r@[14].1@ == "Svenska"@,
        r@[15].0@ == "uk"@ && r@[15].1@ == "Українська"@,
        r@[16].0@ == "zh-cn"@ && r@[16].1@ == "简体中文"@,
{
    assert(languages().len() == 17);
}

} // verus!
