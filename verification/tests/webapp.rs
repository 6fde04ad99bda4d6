use std::cmp::Ordering;
use std::rc::Rc;

use pabitell::books::{books, languages, selected_book, AppRoutes};
use pabitell::webapp::characters::{Character, CharacterQRJson};
use pabitell::webapp::items::{DefaultAction, Item};

fn item(short: &str, last_event: Option<usize>) -> Item {
    Item {
        code: format!("code-{short}"),
        short: short.to_string(),
        long: format!("a {short}"),
        image_url: format!("images/{short}.svg"),
        give_data: None,
        use_data: Some(Rc::new(vec![1, 2, 3])),
        scan: false,
        default: DefaultAction::Use,
        last_event,
    }
}

#[test]
fn items_in_later_events_come_first() {
    let a = item("apple", Some(1));
    let b = item("bone", Some(3));
    assert_eq!(b.cmp(&a), Ordering::Less);
    assert_eq!(a.cmp(&b), Ordering::Greater);
    assert!(b < a);
}

#[test]
fn items_without_event_count_as_event_zero() {
    let a = item("apple", None);
    let b = item("bone", Some(0));
    assert_eq!(a.cmp(&b), Ordering::Less);
    assert_eq!(b.cmp(&a), Ordering::Greater);
}

#[test]
fn items_of_same_event_by_short_text() {
    let a = item("apple", Some(2));
    let b = item("bone", Some(2));
    assert_eq!(a.cmp(&b), Ordering::Less);
    assert_eq!(a.partial_cmp(&b), Some(Ordering::Less));
    let mut c = item("apple", Some(2));
    c.code = "other".to_string();
    assert_eq!(a.cmp(&c), Ordering::Equal);
    assert!(a != c);
    assert!(a == item("apple", Some(2)));
}

#[test]
fn items_sorted() {
    let mut items = vec![item("cake", None), item("ball", Some(4)), item("apple", None), item("doll", Some(4))];
    items.sort_by(|x, y| x.cmp(y));
    let shorts: Vec<&str> = items.iter().map(|i| i.short.as_str()).collect();
    assert_eq!(shorts, vec!["ball", "doll", "apple", "cake"]);
}

#[test]
fn item_equality_looks_at_bytes() {
    let a = item("apple", None);
    let mut b = item("apple", None);
    b.use_data = Some(Rc::new(vec![1, 2, 4]));
    assert!(a != b);
    b.use_data = Some(Rc::new(vec![1, 2, 3]));
    assert!(a == b);
    b.give_data = Some(Rc::new(vec![]));
    assert!(a != b);
}

#[test]
fn characters_and_codes() {
    let character = Character {
        code: Rc::new(Some("doggie".to_string())),
        name: Rc::new("doggie".to_string()),
        character_url: Rc::new("/doggie".to_string()),
        short: Rc::new("Doggie".to_string()),
        long: Rc::new("A dog".to_string()),
        icon: Rc::new("dog".to_string()),
    };
    assert_eq!(character.clone().name.as_str(), "doggie");
    let id = uuid::Uuid::from_u128(3);
    let code = CharacterQRJson::new(Some("doggie".to_string()), id);
    assert_eq!(code.character, Some("doggie".to_string()));
    assert_eq!(code.world_id, id);
}

#[test]
fn books_of_the_site() {
    let all = books();
    assert_eq!(all.len(), 1);
    assert_eq!(all[0].name, "doggie_and_kitie");
    assert_eq!(all[0].title_slug, "doggie_and_kitie-title");
    assert_eq!(all[0].img_url, "images/doggie_and_kitie.svg");
    assert_eq!(all[0].chapters.len(), 2);
    assert_eq!(all[0].chapters[0].name, "cake");
    assert_eq!(all[0].chapters[0].title_slug, "doggie_and_kitie-cake-title");
    assert_eq!(all[0].chapters[1].description_slug, "doggie_and_kitie-doll-description");
    assert_eq!(all[0].chapters[1].img_url, "images/doggie_and_kitie-doll.svg");
    assert_eq!(all[0].chapters[1].target_url, "/doggie_and_kitie/doll/");
    assert_eq!(languages(), vec!["en", "cs"]);
}

#[test]
fn book_of_a_route() {
    let all = books();
    let route = AppRoutes::Book { book_slug: vec!["doggie_and_kitie".to_string(), "cake".to_string()] };
    match route {
        AppRoutes::Book { book_slug } => {
            assert_eq!(selected_book(&all, &book_slug), Some(0));
            assert_eq!(selected_book(&all, &vec!["unknown".to_string()]), None);
        },
        _ => unreachable!(),
    }
}

use pabitell::webapp::app::screen_text;
use pabitell::webapp::print::PrintItem;
use pabitell::webapp::scenes::make_scenes;
use pabitell::webapp::status::{ws_url, WsStatus};
use pabitell::world::{SimpleCharacter, SimpleScene, WorldBuilder};

#[test]
fn scenes_as_players_see_them() {
    let world = WorldBuilder::new("story")
        .language("en")
        .scene(SimpleScene::new("kitchen", vec![]))
        .scene(SimpleScene::with_dialog("garden", vec![]))
        .build()
        .unwrap();
    let mut scenes = make_scenes(&world);
    scenes.sort_by(|a, b| a.code.cmp(&b.code));
    assert_eq!(scenes.len(), 2);
    assert_eq!(scenes[0].code, "garden");
    assert_eq!(scenes[0].short, "story-garden-short");
    assert_eq!(scenes[0].image_url, "images/garden.svg");
    assert_eq!(scenes[1].code, "kitchen");
    assert_eq!(scenes[1].image_url, "images/kitchen.svg");
}

#[test]
fn status_classes() {
    assert_eq!(WsStatus::default(), WsStatus::DISCONNECTED);
    assert_eq!(WsStatus::CONNECTED.icon_classes(), "fas fa-book");
    assert_eq!(WsStatus::CONNECTING.icon_classes(), "fas fa-book-alt");
    assert_eq!(WsStatus::DISCONNECTED.icon_classes(), "fas fa-book-dead");
    assert_eq!(WsStatus::CONNECTED.text_classes(), "icon has-text-success");
    assert_eq!(WsStatus::CONNECTING.text_classes(), "icon has-text-info");
    assert_eq!(WsStatus::DISCONNECTED.text_classes(), "icon has-text-danger");
}

#[test]
fn websocket_address() {
    assert_eq!(
        ws_url("https:", "example.org", "pabitell", "cake", Some("1234")),
        Some("wss://example.org/ws/pabitell/cake/1234/".to_string())
    );
    assert_eq!(
        ws_url("http:", "localhost:8080", "pabitell", "doll", Some("ab")),
        Some("ws://localhost:8080/ws/pabitell/doll/ab/".to_string())
    );
    assert_eq!(ws_url("https:", "example.org", "pabitell", "cake", None), None);
}

#[test]
fn print_items() {
    let item = PrintItem::new(Rc::new(vec![7, 8]))
        .title(Some("Cake".to_string()))
        .description(None)
        .img_url(Some("images/cake.svg".to_string()));
    assert_eq!(item.get_title(), &Some("Cake".to_string()));
    assert_eq!(item.get_description(), &None);
    assert_eq!(item.get_img_url(), &Some("images/cake.svg".to_string()));
    assert_eq!(item.data(), &vec![7, 8]);
}

#[test]
fn text_of_the_screen() {
    let mut world = WorldBuilder::new("story")
        .language("en")
        .character(SimpleCharacter::new("doggie", vec![]))
        .scene(SimpleScene::new("kitchen", vec![]))
        .build()
        .unwrap();
    let doggie = Some("doggie".to_string());
    assert_eq!(screen_text(None, &doggie), None);
    assert_eq!(screen_text(Some(&world), &None), None);
    assert_eq!(screen_text(Some(&world), &doggie), None);
    assert!(world.set_character_scene(&"doggie".to_string(), Some("kitchen".to_string())));
    assert_eq!(screen_text(Some(&world), &doggie), Some("story-kitchen-long".to_string()));
}

#[test]
fn item_order_is_antisymmetric_and_transitive() {
    let items = [item("a", Some(3)), item("b", Some(3)), item("c", None), item("a", Some(1))];
    for x in &items {
        for y in &items {
            assert_eq!(x.cmp(y), y.cmp(x).reverse());
            for z in &items {
                if x.cmp(y) == Ordering::Less && y.cmp(z) == Ordering::Less {
                    assert_eq!(x.cmp(z), Ordering::Less);
                }
            }
        }
    }
}
