use vstd::prelude::*;

verus! {

broadcast use vstd::std_specs::vec::group_vec_axioms;

/// A chapter of a book: a story that can be played.
#[derive(Clone, Debug)]
pub struct Chapter {
    pub name: String,
    pub title_slug: String,
    pub description_slug: String,
    pub img_url: String,
    pub target_url: String,
}

/// A book: a set of chapters.
#[derive(Clone, Debug)]
pub struct Book {
    pub name: String,
    pub title_slug: String,
    pub description_slug: String,
    pub img_url: String,
    pub chapters: Vec<Chapter>,
}

/// The mathematical value of a chapter.
pub struct ChapterView {
    pub name: Seq<char>,
    pub title_slug: Seq<char>,
    pub description_slug: Seq<char>,
    pub img_url: Seq<char>,
    pub target_url: Seq<char>,
}

/// The mathematical value of a book.
pub struct BookView {
    pub name: Seq<char>,
    pub title_slug: Seq<char>,
    pub description_slug: Seq<char>,
    pub img_url: Seq<char>,
    pub chapters: Seq<ChapterView>,
}

impl View for Chapter {
    type V = ChapterView;

    open spec fn view(&self) -> ChapterView {
        ChapterView {
            name: self.name@,
            title_slug: self.title_slug@,
            description_slug: self.description_slug@,
            img_url: self.img_url@,
            target_url: self.target_url@,
        }
    }
}

impl View for Book {
    type V = BookView;

    open spec fn view(&self) -> BookView {
        BookView {
            name: self.name@,
            title_slug: self.title_slug@,
            description_slug: self.description_slug@,
            img_url: self.img_url@,
            chapters: self.chapters@.map_values(|c: Chapter| c@),
        }
    }
}

/// The routes of the site: the list of books, a book, or a page that does not
/// exist.
#[derive(Debug)]
pub enum AppRoutes {
    NotFound,
    Root,
    Book { book_slug: Vec<String> },
}

/// A chapter of the book of the doggie and the kitie.
pub open spec fn story_chapter(name: Seq<char>) -> ChapterView {
    ChapterView {
        name,
        title_slug: "doggie_and_kitie-"@ + name + "-title"@,
        description_slug: "doggie_and_kitie-"@ + name + "-description"@,
        img_url: "images/doggie_and_kitie-"@ + name + ".svg"@,
        target_url: "/doggie_and_kitie/"@ + name + "/"@,
    }
}

/// The books of the site.
pub open spec fn library() -> Seq<BookView> {
    seq![
        BookView {
            name: "doggie_and_kitie"@,
            title_slug: "doggie_and_kitie-title"@,
            description_slug: "doggie_and_kitie-description"@,
            img_url: "images/doggie_and_kitie.svg"@,
            chapters: seq![story_chapter("cake"@), story_chapter("doll"@)],
        },
    ]
}

fn text(s: &str) -> (r: String)
    ensures
        r@ == s@,
{
    String::from_str(s)
}

fn chapter(name: &str) -> (r: Chapter)
    ensures
        r@ == story_chapter(name@),
{
    let mut title = text("doggie_and_kitie-");
    title.append(name);
    title.append("-title");
    let mut description = text("doggie_and_kitie-");
    description.append(name);
    description.append("-description");
    let mut img = text("images/doggie_and_kitie-");
    img.append(name);
    img.append(".svg");
    let mut target = text("/doggie_and_kitie/");
    target.append(name);
    target.append("/");
    Chapter { name: text(name), title_slug: title, description_slug: description, img_url: img, target_url: target }
}

/// The books of the site.
pub fn books() -> (r: Vec<Book>)
    ensures
        r@.map_values(|b: Book| b@) == library(),
{
    let mut chapters: Vec<Chapter> = Vec::new();
    chapters.push(chapter("cake"));
    chapters.push(chapter("doll"));
    let book = Book {
        name: text("doggie_and_kitie"),
        title_slug: text("doggie_and_kitie-title"),
        description_slug: text("doggie_and_kitie-description"),
        img_url: text("images/doggie_and_kitie.svg"),
        chapters,
    };
    assert(book@.chapters =~= seq![story_chapter("cake"@), story_chapter("doll"@)]);
    let mut r: Vec<Book> = Vec::new();
    r.push(book);
    assert(r@.map_values(|b: Book| b@) =~= library());
    r
}

/// The languages of the site.
pub fn languages() -> (r: Vec<&'static str>)
    ensures
        r@.len() == 2,
        r@[0]@ == "en"@,
        r@[1]@ == "cs"@,
{
    let mut r: Vec<&'static str> = Vec::new();
    r.push("en");
    r.push("cs");
    r
}

/// The first of the books whose name is the first part of the path of a book
/// page.
pub fn selected_book(books: &Vec<Book>, book_slug: &Vec<String>) -> (r: Option<usize>)
    requires
        book_slug.len() > 0,
    ensures
        match r {
            Some(i) => i < books.len() && books@[i as int].name@ == book_slug@[0]@ && forall|j: int|
                0 <= j < i ==> books@[j].name@ != book_slug@[0]@,
            None => forall|j: int| 0 <= j < books.len() ==> books@[j].name@ != book_slug@[0]@,
        },
{
    let slug = &book_slug[0];
    let mut i: usize = 0;
    while i < books.len()
        invariant
            i <= books.len(),
            slug@ == book_slug@[0]@,
            forall|j: int| 0 <= j < i ==> books@[j].name@ != book_slug@[0]@,
        decreases books.len() - i,
    {
        if books[i].name.eq(slug) {
            return Some(i);
        }
        i += 1;
    }
    None
}

} // verus!
