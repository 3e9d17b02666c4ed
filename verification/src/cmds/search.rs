//! Listing and searching sounds: the pages of a user's or a server's sounds,
//! with the buttons that move between pages, and the public search results.
use vstd::prelude::*;
use vstd::string::*;
use vstd::utf8::*;
use crate::models::sound::Sound;
use crate::text::{byte_len, byte_len_capped, decimal, lemma_decimal_digits, push_decimal};

verus! {

/// The colour of the bot's embeds.
pub const THEME_COLOR: u32 = 0x00e0f3;

/// The longest message Discord accepts, in bytes.
pub const MESSAGE_CODE_LIMIT: usize = 2000;

/// Sounds per page.
pub const PAGE_SIZE: u64 = 25;

/// Whose sounds a listing shows.
#[derive(Debug, PartialEq, Eq, Structural, Clone, Copy)]
pub enum ListContext {
    User,
    Guild,
}

/// The title of a listing.
pub open spec fn list_title(context: ListContext) -> Seq<char> {
    match context {
        ListContext::User => "Your sounds"@,
        ListContext::Guild => "Server sounds"@,
    }
}

/// How a listing's context is written in a button's ID.
pub open spec fn context_name(context: ListContext) -> Seq<char> {
    match context {
        ListContext::User => "User"@,
        ListContext::Guild => "Guild"@,
    }
}

impl ListContext {
    /// The title of a listing of this kind.
    pub fn title(&self) -> (res: &'static str)
        ensures
            res@ == list_title(*self),
    {
        match self {
            ListContext::User => "Your sounds",
            ListContext::Guild => "Server sounds",
        }
    }
}

/// The style of a button.
#[derive(Debug, PartialEq, Eq, Structural, Clone, Copy)]
pub enum ButtonStyle {
    Primary,
    Secondary,
    Success,
}

/// A button of a message.
pub struct Button {
    pub custom_id: String,
    pub style: ButtonStyle,
    pub label: String,
    pub disabled: bool,
}

/// A field of an embed.
pub struct EmbedField {
    pub name: String,
    pub value: String,
    pub inline: bool,
}

/// One page of a listing: which page, of whose sounds. The nonce tells apart
/// buttons that would otherwise carry the same ID.
pub struct SoundPager {
    nonce: u64,
    page: u64,
    context: ListContext,
}

/// The ID a button carries for a pager: the pager written as JSON, its fields
/// in order and without spaces.
pub open spec fn pager_id(nonce: u64, page: u64, context: ListContext) -> Seq<char> {
    "{\"nonce\":"@ + decimal(nonce as nat) + ",\"page\":"@ + decimal(page as nat) + ",\"context\":\""@
        + context_name(context) + "\"}"@
}

/// The page before `page`, staying at the first.
pub open spec fn page_before(page: u64) -> u64 {
    if page == 0 { 0 } else { (page - 1) as u64 }
}

/// The page after `page`, staying at the largest number.
pub open spec fn page_after(page: u64) -> u64 {
    if page == u64::MAX { page } else { (page + 1) as u64 }
}

/// The label of the page indicator.
pub open spec fn page_label(page: u64) -> Seq<char> {
    "Page "@ + decimal(page as nat + 1)
}

/// The value of an embed field for a sound in a listing.
pub open spec fn listing_value(s: Sound) -> Seq<char> {
    "ID: `"@ + decimal(s.id as nat) + "`\n"@ + (if s.public { "*Public*"@ } else { "*Private*"@ })
}

/// The last page of a listing of `count` sounds.
pub open spec fn max_page_spec(count: u64) -> u64 {
    count / 25
}

/// Whether a button's ID is that of a listing page ([`pager_id`] IDs begin
/// with `{`); the buttons of a soundboard carry a sound's ID instead.
pub fn is_pager_button(custom_id: &str) -> (res: bool)
    ensures
        res == (custom_id@.len() > 0 && custom_id@[0] == '{'),
{
    custom_id.unicode_len() > 0 && custom_id.get_char(0) == '{'
}

/// The last page of a listing of `count` sounds.
pub fn max_page(count: u64) -> (res: u64)
    ensures
        res == max_page_spec(count),
{
    count / PAGE_SIZE
}

fn pager_id_string(nonce: u64, page: u64, context: ListContext) -> (res: String)
    ensures
        res@ == pager_id(nonce, page, context),
{
    let mut s = String::from_str("{\"nonce\":");
    push_decimal(&mut s, nonce);
    s.append(",\"page\":");
    push_decimal(&mut s, page);
    s.append(",\"context\":\"");
    match context {
        ListContext::User => s.append("User"),
        ListContext::Guild => s.append("Guild"),
    }
    s.append("\"}");
    s
}

impl SoundPager {
    pub fn new(nonce: u64, page: u64, context: ListContext) -> (res: SoundPager)
        ensures
            res.nonce_spec() == nonce,
            res.page_spec() == page,
            res.context_spec() == context,
    {
        SoundPager { nonce, page, context }
    }

    pub closed spec fn nonce_spec(&self) -> u64 {
        self.nonce
    }

    pub closed spec fn page_spec(&self) -> u64 {
        self.page
    }

    pub closed spec fn context_spec(&self) -> ListContext {
        self.context
    }

    pub fn nonce(&self) -> (res: u64)
        ensures
            res == self.nonce_spec(),
    {
        self.nonce
    }

    pub fn page(&self) -> (res: u64)
        ensures
            res == self.page_spec(),
    {
        self.page
    }

    pub fn context(&self) -> (res: ListContext)
        ensures
            res == self.context_spec(),
    {
        self.context
    }

    /// This pager written as a button ID (see [`pager_id`]).
    pub fn to_custom_id(&self) -> (res: String)
        ensures
            res@ == pager_id(self.nonce_spec(), self.page_spec(), self.context_spec()),
    {
        pager_id_string(self.nonce, self.page, self.context)
    }

    /// The row of buttons under a page, where `max_page` is the last page: to
    /// the first page, to the previous page, the page indicator, to the next
    /// page, and to the last page. The first two are disabled on the first
    /// page, the last two on the last page.
    pub fn create_action_row(&self, max_page: u64) -> (res: Vec<Button>)
        requires
            self.page_spec() < u64::MAX,
        ensures
            res@.len() == 5,
            res@[0].custom_id@ == pager_id(0, 0, self.context_spec()),
            res@[0].style == ButtonStyle::Primary,
            res@[0].label@ == "\u{23ea}"@,
            res@[0].disabled == (self.page_spec() == 0),
            res@[1].custom_id@ == pager_id(1, page_before(self.page_spec()), self.context_spec()),
            res@[1].style == ButtonStyle::Secondary,
            res@[1].label@ == "\u{25c0}\u{fe0f}"@,
            res@[1].disabled == (self.page_spec() == 0),
            res@[2].custom_id@ == "pid"@,
            res@[2].style == ButtonStyle::Success,
            res@[2].label@ == page_label(self.page_spec()),
            res@[2].disabled,
            res@[3].custom_id@ == pager_id(2, page_after(self.page_spec()), self.context_spec()),
            res@[3].style == ButtonStyle::Secondary,
            res@[3].label@ == "\u{25b6}\u{fe0f}"@,
            res@[3].disabled == (self.page_spec() == max_page),
            res@[4].custom_id@ == pager_id(3, max_page, self.context_spec()),
            res@[4].style == ButtonStyle::Primary,
            res@[4].label@ == "\u{23e9}"@,
            res@[4].disabled == (self.page_spec() == max_page),
    {
        let before = if self.page == 0 { 0 } else { self.page - 1 };
        let after = if self.page == u64::MAX { self.page } else { self.page + 1 };
        let mut label = String::from_str("Page ");
        push_decimal(&mut label, self.page + 1);
        let mut row: Vec<Button> = Vec::new();
        row.push(Button {
            custom_id: pager_id_string(0, 0, self.context),
            style: ButtonStyle::Primary,
            label: String::from_str("\u{23ea}"),
            disabled: self.page == 0,
        });
        row.push(Button {
            custom_id: pager_id_string(1, before, self.context),
            style: ButtonStyle::Secondary,
            label: String::from_str("\u{25c0}\u{fe0f}"),
            disabled: self.page == 0,
        });
        row.push(Button {
            custom_id: String::from_str("pid"),
            style: ButtonStyle::Success,
            label,
            disabled: true,
        });
        row.push(Button {
            custom_id: pager_id_string(2, after, self.context),
            style: ButtonStyle::Secondary,
            label: String::from_str("\u{25b6}\u{fe0f}"),
            disabled: self.page == max_page,
        });
        row.push(Button {
            custom_id: pager_id_string(3, max_page, self.context),
            style: ButtonStyle::Primary,
            label: String::from_str("\u{23e9}"),
            disabled: self.page == max_page,
        });
        row
    }

    /// The embed of a page: the listing's title, the number of sounds, and a
    /// field per sound on the page with its ID and whether it is public.
    pub fn embed(&self, sounds: &Vec<Sound>, count: u64) -> (res: PagerEmbed)
        ensures
            res.color == THEME_COLOR,
            res.title@ == list_title(self.context_spec()),
            res.description@ == "**"@ + decimal(count as nat) + "** sounds:"@,
            res.fields@.len() == sounds@.len(),
            forall|i: int| 0 <= i < sounds@.len() ==> {
                &&& (#[trigger] res.fields@[i]).name@ == sounds@[i].name@
                &&& res.fields@[i].value@ == listing_value(sounds@[i])
                &&& res.fields@[i].inline
            },
    {
        let mut description = String::from_str("**");
        push_decimal(&mut description, count);
        description.append("** sounds:");
        let mut fields: Vec<EmbedField> = Vec::new();
        let mut i: usize = 0;
        while i < sounds.len()
            invariant
                i <= sounds@.len(),
                fields@.len() == i,
                forall|j: int| 0 <= j < i ==> {
                    &&& (#[trigger] fields@[j]).name@ == sounds@[j].name@
                    &&& fields@[j].value@ == listing_value(sounds@[j])
                    &&& fields@[j].inline
                },
            decreases sounds@.len() - i,
        {
            let s = &sounds[i];
            let mut value = String::from_str("ID: `");
            push_decimal(&mut value, s.id as u64);
            value.append("`\n");
            if s.public {
                value.append("*Public*");
            } else {
                value.append("*Private*");
            }
            fields.push(EmbedField { name: s.name.clone(), value, inline: true });
            i = i + 1;
        }
        PagerEmbed {
            color: THEME_COLOR,
            title: String::from_str(self.context.title()),
            description,
            fields,
        }
    }
}

/// The embed of a listing page.
pub struct PagerEmbed {
    pub color: u32,
    pub title: String,
    pub description: String,
    pub fields: Vec<EmbedField>,
}


/// The title of the search results.
pub open spec fn search_title() -> Seq<char> {
    "Public sounds matching filter:"@
}

/// How many bytes the fields of the search results may take: the message limit
/// less the title.
pub open spec fn search_budget() -> nat {
    (2000 - 30) as nat
}

/// The field value of a search result.
pub open spec fn id_label(id: u32) -> Seq<char> {
    "ID: "@ + decimal(id as nat)
}

/// The results kept from `items`, `used` bytes having been counted before
/// them: each result adds the bytes of its name and its ID label to the count,
/// and is kept while the count stays within the budget.
pub open spec fn search_kept(items: Seq<Sound>, used: nat) -> Seq<Sound>
    decreases items.len(),
{
    if items.len() == 0 {
        Seq::empty()
    } else {
        let c = used + byte_len(items[0].name@) + byte_len(id_label(items[0].id));
        if c <= search_budget() {
            seq![items[0]] + search_kept(items.drop_first(), c)
        } else {
            search_kept(items.drop_first(), c)
        }
    }
}

/// The search results shown: of the first 25, those that fit the budget.
pub open spec fn shown_results(results: Seq<Sound>) -> Seq<Sound> {
    search_kept(results.take(if results.len() < 25 { results.len() as int } else { 25 }), 0)
}

proof fn lemma_search_kept_over(items: Seq<Sound>, used: nat)
    requires
        used > search_budget(),
    ensures
        search_kept(items, used) == Seq::<Sound>::empty(),
    decreases items.len(),
{
    if items.len() > 0 {
        let c = used + byte_len(items[0].name@) + byte_len(id_label(items[0].id));
        lemma_search_kept_over(items.drop_first(), c);
    }
}

/// The bytes that shown results take: their names and ID labels.
pub open spec fn shown_bytes(kept: Seq<Sound>) -> nat
    decreases kept.len(),
{
    if kept.len() == 0 {
        0
    } else {
        byte_len(kept[0].name@) + byte_len(id_label(kept[0].id)) + shown_bytes(kept.drop_first())
    }
}

proof fn lemma_search_kept_bytes(items: Seq<Sound>, used: nat)
    requires
        used <= search_budget(),
    ensures
        used + shown_bytes(search_kept(items, used)) <= search_budget(),
    decreases items.len(),
{
    if items.len() > 0 {
        let c = used + byte_len(items[0].name@) + byte_len(id_label(items[0].id));
        if c <= search_budget() {
            lemma_search_kept_bytes(items.drop_first(), c);
            let k = search_kept(items, used);
            assert(k.drop_first() =~= search_kept(items.drop_first(), c));
        } else {
            lemma_search_kept_over(items.drop_first(), c);
        }
    }
}

/// The shown search results, with the title, fit in one message.
pub proof fn lemma_search_results_fit(results: Seq<Sound>)
    ensures
        search_title().len() + shown_bytes(shown_results(results)) <= 2000,
        shown_results(results).len() <= 25,
{
    reveal_strlit("Public sounds matching filter:");
    let items = results.take(if results.len() < 25 { results.len() as int } else { 25 });
    lemma_search_kept_bytes(items, 0);
    lemma_search_kept_len(items, 0);
}

proof fn lemma_search_kept_len(items: Seq<Sound>, used: nat)
    ensures
        search_kept(items, used).len() <= items.len(),
    decreases items.len(),
{
    if items.len() > 0 {
        let c = used + byte_len(items[0].name@) + byte_len(id_label(items[0].id));
        lemma_search_kept_len(items.drop_first(), c);
    }
}

/// The embed of the search results.
pub struct SearchEmbed {
    pub title: String,
    pub fields: Vec<EmbedField>,
}

/// The embed that shows search results: a field per shown result
/// ([`shown_results`]) with its name and ID label.
pub fn format_search_results(results: &Vec<Sound>) -> (res: SearchEmbed)
    ensures
        res.title@ == search_title(),
        res.fields@.len() == shown_results(results@).len(),
        forall|i: int| 0 <= i < res.fields@.len() ==> {
            &&& (#[trigger] res.fields@[i]).name@ == shown_results(results@)[i].name@
            &&& res.fields@[i].value@ == id_label(shown_results(results@)[i].id)
            &&& res.fields@[i].inline
        },
{
    let n: usize = if results.len() < 25 { results.len() } else { 25 };
    let ghost items = results@.take(n as int);
    let mut fields: Vec<EmbedField> = Vec::new();
    let mut used: usize = 0;
    let mut over = false;
    let ghost mut total: nat = 0;
    let ghost mut kept: Seq<Sound> = Seq::empty();
    let mut i: usize = 0;
    assert(items.skip(0) =~= items);
    while i < n
        invariant
            n <= results@.len(),
            items == results@.take(n as int),
            i <= n,
            search_kept(items, 0) == kept + search_kept(items.skip(i as int), total),
            !over ==> used as nat == total && used <= 1970,
            over ==> total > search_budget(),
            fields@.len() == kept.len(),
            forall|j: int| 0 <= j < kept.len() ==> {
                &&& (#[trigger] fields@[j]).name@ == kept[j].name@
                &&& fields@[j].value@ == id_label(kept[j].id)
                &&& fields@[j].inline
            },
        decreases n - i,
    {
        let s = &results[i];
        let mut label = String::from_str("ID: ");
        push_decimal(&mut label, s.id as u64);
        let ghost rest = items.skip(i as int);
        assert(rest[0] == *s);
        assert(rest.drop_first() =~= items.skip(i + 1));
        let ghost c = total + byte_len(s.name@) + byte_len(label@);
        let nl = byte_len_capped(s.name.as_str(), 1970);
        let il = byte_len_capped(label.as_str(), 1970);
        if !over && nl <= 1970 - used && il <= 1970 - used - nl {
            assert(c <= search_budget());
            proof {
                total = c;
                kept = kept.push(*s);
            }
            used = used + nl + il;
            fields.push(EmbedField { name: s.name.clone(), value: label, inline: true });
            assert(search_kept(items, 0) == kept + search_kept(items.skip(i + 1), total)) by {
                assert(kept.drop_last() + (seq![*s] + search_kept(items.skip(i + 1), total))
                    =~= kept + search_kept(items.skip(i + 1), total));
            }
        } else {
            assert(c > search_budget());
            proof {
                total = c;
            }
            over = true;
        }
        i = i + 1;
    }
    assert(items.skip(n as int) =~= Seq::<Sound>::empty());
    assert(kept =~= kept + Seq::<Sound>::empty());
    SearchEmbed { title: String::from_str("Public sounds matching filter:"), fields }
}

} // verus!
