use noir_atelier::models::{format_price, products, AuthRequest, Outfit, OutfitPayload};

#[test]
fn catalogue_lists_six_articles() {
    let list = products();
    let ids: Vec<&str> = list.iter().map(|p| p.id).collect();
    assert_eq!(ids, vec!["coat", "hoodie", "trousers", "jacket", "bag", "boots"]);
    let prices: Vec<i64> = list.iter().map(|p| p.price).collect();
    assert_eq!(prices, vec![24_900, 9_800, 12_400, 19_600, 7_900, 14_300]);
    assert_eq!(list[0].title, "Oversize Coat");
    assert_eq!(list[1].alt, "Худи");
    assert_eq!(list[5].tag, "Shoes");
}

#[test]
fn prices_are_grouped_by_thousands() {
    assert_eq!(format_price(0), "0 ₽");
    assert_eq!(format_price(7), "7 ₽");
    assert_eq!(format_price(999), "999 ₽");
    assert_eq!(format_price(1_000), "1 000 ₽");
    assert_eq!(format_price(24_900), "24 900 ₽");
    assert_eq!(format_price(123_456), "123 456 ₽");
    assert_eq!(format_price(1_234_567), "1 234 567 ₽");
    assert_eq!(format_price(i64::MAX), "9 223 372 036 854 775 807 ₽");
}

#[test]
fn negative_prices_carry_a_minus_sign() {
    assert_eq!(format_price(-5), "-5 ₽");
    assert_eq!(format_price(-14_900), "-14 900 ₽");
    assert_eq!(format_price(-1_234_567), "-1 234 567 ₽");
    assert_eq!(format_price(-i64::MAX), "-9 223 372 036 854 775 807 ₽");
}

fn read_back(text: &str) -> i64 {
    let body = text.strip_suffix(" ₽").unwrap();
    let digits: String = body.chars().filter(|c| *c != ' ').collect();
    digits.parse().unwrap()
}

#[test]
fn price_texts_read_back_as_their_amount() {
    for v in [0, 1, 12, 999, 1_000, 10_001, 88_900, -3, -1_000, -987_654_321, i64::MAX, -i64::MAX] {
        assert_eq!(read_back(&format_price(v)), v);
    }
}

#[test]
fn empty_payload_and_edit_payload() {
    let empty = OutfitPayload::default();
    assert_eq!(empty, OutfitPayload { title: String::new(), content: String::new(), occasion: String::new() });
    let outfit = Outfit {
        id: 3,
        title: "Monochrome office".to_string(),
        content: "Black blazer".to_string(),
        occasion: "Работа".to_string(),
        is_published: false,
        created_at: "2024-05-01".to_string(),
        author_email: "a@b.c".to_string(),
    };
    let p = outfit.edit_payload();
    assert_eq!(p.title, "Monochrome office");
    assert_eq!(p.content, "Black blazer");
    assert_eq!(p.occasion, "Работа");
    assert_eq!(outfit.status_label(), "Черновик");
    assert_eq!(outfit.publish_label(), "Опубликовать");
    let published = Outfit { is_published: true, ..outfit };
    assert_eq!(published.status_label(), "Опубликовано");
    assert_eq!(published.publish_label(), "Снять");
}

#[test]
fn auth_request_carries_the_credentials() {
    let r = AuthRequest::new("student@example.com", "secret");
    assert_eq!(r.email, "student@example.com");
    assert_eq!(r.password, "secret");
}
