use vstd::prelude::*;
use vstd::string::*;

use crate::text::{
    all_digits, decimal, decimal_string, decimal_value, group_thousands, group_thousands_string,
    lemma_decimal_reads_back, lemma_group_thousands_shape, lemma_group_thousands_strips,
    without_spaces,
};

verus! {

/// An article of the shop's catalogue.
#[derive(Clone, Copy, PartialEq)]
pub struct Product {
    pub id: &'static str,
    pub title: &'static str,
    pub search: &'static str,
    pub tag: &'static str,
    pub price: i64,
    pub image: &'static str,
    pub alt: &'static str,
    pub text: &'static str,
}

/// The fields of a product as plain values: identifier, title, search text,
/// tag, price, image address, image description and text.
pub type ProductRow = (Seq<char>, Seq<char>, Seq<char>, Seq<char>, int, Seq<char>, Seq<char>, Seq<char>);

/// The fields of a product as plain values.
pub open spec fn product_row(p: Product) -> ProductRow {
    (p.id@, p.title@, p.search@, p.tag@, p.price as int, p.image@, p.alt@, p.text@)
}

/// The number of articles in the catalogue.
pub open spec fn catalog_len() -> nat {
    6
}

/// The `i`-th article of the catalogue, as plain values.
pub open spec fn catalog_row(i: int) -> ProductRow {
    if i == 0 {
        ("coat"@, "Oversize Coat"@, "oversize пальто black coat outerwear"@, "Outerwear"@, 24_900,
         "https://images.unsplash.com/photo-1515886657613-9f3515b0c78f?auto=format&fit=crop&w=900&q=80"@,
         "Чёрное пальто"@, "Длинное пальто с прямым силуэтом и минимальной фурнитурой."@)
    } else if i == 1 {
        ("hoodie"@, "Heavy Hoodie"@, "худи hoodie streetwear"@, "Streetwear"@, 9_800,
         "https://images.unsplash.com/photo-1556821840-3a63f95609a7?auto=format&fit=crop&w=900&q=80"@,
         "Худи"@, "Плотное худи свободного кроя для многослойных образов."@)
    } else if i == 2 {
        ("trousers"@, "Wide Trousers"@, "брюки trousers wide pants tailoring"@, "Tailoring"@, 12_400,
         "https://images.unsplash.com/photo-1541099649105-f69ad21f3246?auto=format&fit=crop&w=900&q=80"@,
         "Брюки"@, "Широкие брюки со стрелками, подходящие для офиса и подиума."@)
    } else if i == 3 {
        ("jacket"@, "Sharp Jacket"@, "куртка jacket leather"@, "Jackets"@, 19_600,
         "https://images.unsplash.com/photo-1520975954732-35dd22299614?auto=format&fit=crop&w=900&q=80"@,
         "Куртка"@, "Акцентная куртка с жёсткой формой и городским настроением."@)
    } else if i == 4 {
        ("bag"@, "Metal Bag"@, "сумка bag аксессуары accessories"@, "Accessories"@, 7_900,
         "https://images.unsplash.com/photo-1590874103328-eac38a683ce7?auto=format&fit=crop&w=900&q=80"@,
         "Сумка"@, "Компактная сумка с металлической деталью и строгой геометрией."@)
    } else {
        ("boots"@, "Urban Boots"@, "ботинки boots shoes обувь"@, "Shoes"@, 14_300,
         "https://images.unsplash.com/photo-1542291026-7eec264c27ff?auto=format&fit=crop&w=900&q=80"@,
         "Обувь"@, "Массивная обувь для контрастного завершения образа."@)
    }
}

/// The identifier of the `i`-th article of the catalogue.
pub open spec fn catalog_id(i: int) -> Seq<char> {
    catalog_row(i).0
}

/// The price of the `i`-th article of the catalogue, in roubles.
pub open spec fn catalog_price(i: int) -> int {
    catalog_row(i).4
}

/// The shop's catalogue, in the order in which the pages list it.
pub fn products() -> (list: Vec<Product>)
    ensures
        list@.len() == catalog_len(),
        forall|i: int| 0 <= i < catalog_len() ==> #[trigger] product_row(list@[i]) == catalog_row(i),
{
    vec![
        Product {
            id: "coat",
            title: "Oversize Coat",
            search: "oversize пальто black coat outerwear",
            tag: "Outerwear",
            price: 24_900,
            image: "https://images.unsplash.com/photo-1515886657613-9f3515b0c78f?auto=format&fit=crop&w=900&q=80",
            alt: "Чёрное пальто",
            text: "Длинное пальто с прямым силуэтом и минимальной фурнитурой.",
        },
        Product {
            id: "hoodie",
            title: "Heavy Hoodie",
            search: "худи hoodie streetwear",
            tag: "Streetwear",
            price: 9_800,
            image: "https://images.unsplash.com/photo-1556821840-3a63f95609a7?auto=format&fit=crop&w=900&q=80",
            alt: "Худи",
            text: "Плотное худи свободного кроя для многослойных образов.",
        },
        Product {
            id: "trousers",
            title: "Wide Trousers",
            search: "брюки trousers wide pants tailoring",
            tag: "Tailoring",
            price: 12_400,
            image: "https://images.unsplash.com/photo-1541099649105-f69ad21f3246?auto=format&fit=crop&w=900&q=80",
            alt: "Брюки",
            text: "Широкие брюки со стрелками, подходящие для офиса и подиума.",
        },
        Product {
            id: "jacket",
            title: "Sharp Jacket",
            search: "куртка jacket leather",
            tag: "Jackets",
            price: 19_600,
            image: "https://images.unsplash.com/photo-1520975954732-35dd22299614?auto=format&fit=crop&w=900&q=80",
            alt: "Куртка",
            text: "Акцентная куртка с жёсткой формой и городским настроением.",
        },
        Product {
            id: "bag",
            title: "Metal Bag",
            search: "сумка bag аксессуары accessories",
            tag: "Accessories",
            price: 7_900,
            image: "https://images.unsplash.com/photo-1590874103328-eac38a683ce7?auto=format&fit=crop&w=900&q=80",
            alt: "Сумка",
            text: "Компактная сумка с металлической деталью и строгой геометрией.",
        },
        Product {
            id: "boots",
            title: "Urban Boots",
            search: "ботинки boots shoes обувь",
            tag: "Shoes",
            price: 14_300,
            image: "https://images.unsplash.com/photo-1542291026-7eec264c27ff?auto=format&fit=crop&w=900&q=80",
            alt: "Обувь",
            text: "Массивная обувь для контрастного завершения образа.",
        },
    ]
}

/// The absolute value of `v`.
pub open spec fn abs(v: int) -> nat {
    if v < 0 {
        (-v) as nat
    } else {
        v as nat
    }
}

/// How a price in roubles is shown: a minus sign for a negative amount, the
/// digits of the amount in groups of three parted by spaces, then a space and
/// the rouble sign, as in "-24 900 ₽".
pub open spec fn price_text(value: int) -> Seq<char> {
    (if value < 0 {
        seq!['-']
    } else {
        Seq::<char>::empty()
    }) + group_thousands(decimal(abs(value))) + seq![' ', '₽']
}

/// The amount that a price text shows: its digits without the spaces and the
/// rouble sign, negated where the text starts with a minus sign.
pub open spec fn price_value(text: Seq<char>) -> int {
    let body = text.take(text.len() - 2);
    if body.len() > 0 && body[0] == '-' {
        -decimal_value(without_spaces(body.drop_first()))
    } else {
        decimal_value(without_spaces(body))
    }
}

/// Formats a price in roubles with its digits grouped by thousands.
pub fn format_price(value: i64) -> (text: String)
    requires
        value > i64::MIN,
    ensures
        text@ == price_text(value as int),
{
    let magnitude: u64 = if value < 0 {
        (-value) as u64
    } else {
        value as u64
    };
    let digits = decimal_string(magnitude);
    let grouped = group_thousands_string(digits.as_str());
    let mut text = String::new();
    proof {
        reveal_strlit("-");
        reveal_strlit(" ₽");
    }
    if value < 0 {
        text.append("-");
    }
    text.append(grouped.as_str());
    text.append(" ₽");
    assert(text@ =~= price_text(value as int));
    text
}

/// A price text reads back as the amount it was made from, whatever its sign
/// and however many groups of digits it has.
pub proof fn lemma_price_text_reads_back(value: int)
    ensures
        price_value(price_text(value)) == value,
{
    let d = decimal(abs(value));
    lemma_decimal_reads_back(abs(value));
    assert(!d.contains(' ')) by {
        if d.contains(' ') {
            let k = choose|k: int| 0 <= k < d.len() && d[k] == ' ';
            assert('0' <= d[k] <= '9');
        }
    }
    lemma_group_thousands_strips(d);
    let g = group_thousands(d);
    let t = price_text(value);
    if value < 0 {
        assert(t.take(t.len() - 2) =~= seq!['-'] + g);
        assert((seq!['-'] + g).drop_first() =~= g);
    } else {
        assert(t.take(t.len() - 2) =~= g);
        assert(g[0] == d[0]);
        assert('0' <= d[0] <= '9');
    }
}

/// A price text is a minus sign exactly for a negative amount, then the
/// digits with a space wherever a multiple of four characters remain before
/// the end of the digit part (so groups of three counted from the right, the
/// first group one to three digits long), then a space and the rouble sign.
pub proof fn lemma_price_text_shape(value: int)
    ensures
        ({
            let t = price_text(value);
            let start: int = if value < 0 {
                1
            } else {
                0
            };
            let body = t.subrange(start, t.len() - 2);
            &&& t.len() >= start + 3
            &&& (t[0] == '-' <==> value < 0)
            &&& t[t.len() - 2] == ' ' && t[t.len() - 1] == '₽'
            &&& body.len() > 0
            &&& forall|j: int|
                0 <= j < body.len() ==> (#[trigger] body[j] == ' ' <==> (j > 0 && (body.len() - j) % 4 == 0))
            &&& without_spaces(body) == decimal(abs(value))
        }),
{
    let d = decimal(abs(value));
    lemma_decimal_reads_back(abs(value));
    assert(!d.contains(' ')) by {
        if d.contains(' ') {
            let k = choose|k: int| 0 <= k < d.len() && d[k] == ' ';
            assert('0' <= d[k] <= '9');
        }
    }
    lemma_group_thousands_shape(d);
    lemma_group_thousands_strips(d);
    let g = group_thousands(d);
    let t = price_text(value);
    let start: int = if value < 0 {
        1
    } else {
        0
    };
    assert(t.subrange(start, t.len() - 2) =~= g);
    if value >= 0 {
        assert(g[0] == d[0]);
        assert('0' <= d[0] <= '9');
        assert(t[0] == g[0]);
    }
}

/// A negative price is shown as the price of its magnitude behind a minus sign.
pub proof fn lemma_price_text_sign(value: int)
    requires
        value < 0,
    ensures
        price_text(value) == seq!['-'] + price_text(-value),
{
    assert(abs(value) == abs(-value));
    assert(price_text(value) =~= seq!['-'] + price_text(-value));
}

/// The credentials sent to register or to log in.
#[derive(Clone, Debug, PartialEq)]
pub struct AuthRequest {
    pub email: String,
    pub password: String,
}

/// What the API answers to a registration.
#[derive(Clone, Debug, PartialEq)]
pub struct RegisterResponse {
    pub message: String,
}

/// What the API answers to a login: the session token and the account's email.
#[derive(Clone, Debug, PartialEq)]
pub struct LoginResponse {
    pub token: String,
    pub email: String,
}

/// The fields of an outfit that its author writes.
#[derive(Clone, Debug, PartialEq)]
pub struct OutfitPayload {
    pub title: String,
    pub content: String,
    pub occasion: String,
}

impl Default for OutfitPayload {
    /// An empty form: every field empty.
    fn default() -> (payload: Self)
        ensures
            payload.title@ == Seq::<char>::empty(),
            payload.content@ == Seq::<char>::empty(),
            payload.occasion@ == Seq::<char>::empty(),
    {
        OutfitPayload { title: String::new(), content: String::new(), occasion: String::new() }
    }
}

/// An outfit as the API lists it.
#[derive(Clone, Debug, PartialEq)]
pub struct Outfit {
    pub id: i64,
    pub title: String,
    pub content: String,
    pub occasion: String,
    pub is_published: bool,
    pub created_at: String,
    pub author_email: String,
}

impl AuthRequest {
    /// The credentials typed into the login form.
    pub fn new(email: &str, password: &str) -> (request: Self)
        ensures
            request.email@ == email@,
            request.password@ == password@,
    {
        AuthRequest { email: String::from_str(email), password: String::from_str(password) }
    }
}

impl Outfit {
    /// The form filled in with this outfit, to edit it.
    pub fn edit_payload(&self) -> (payload: OutfitPayload)
        ensures
            payload.title@ == self.title@,
            payload.content@ == self.content@,
            payload.occasion@ == self.occasion@,
    {
        OutfitPayload {
            title: self.title.clone(),
            content: self.content.clone(),
            occasion: self.occasion.clone(),
        }
    }

    /// The state shown on the outfit's card.
    pub fn status_label(&self) -> (label: &'static str)
        ensures
            label@ == if self.is_published {
                "Опубликовано"@
            } else {
                "Черновик"@
            },
    {
        if self.is_published {
            "Опубликовано"
        } else {
            "Черновик"
        }
    }

    /// The caption of the outfit's publication button.
    pub fn publish_label(&self) -> (label: &'static str)
        ensures
            label@ == if self.is_published {
                "Снять"@
            } else {
                "Опубликовать"@
            },
    {
        if self.is_published {
            "Снять"
        } else {
            "Опубликовать"
        }
    }
}

} // verus!
