use std::rc::Rc;
use vstd::prelude::*;

verus! {

/// Something to print: a code with an optional title, description and
/// picture.
#[derive(Clone, Debug)]
pub struct PrintItem {
    title: Option<String>,
    description: Option<String>,
    img_url: Option<String>,
    data: Rc<Vec<u8>>,
}

/// The mathematical value of a [`PrintItem`].
pub struct PrintItemView {
    pub title: Option<Seq<char>>,
    pub description: Option<Seq<char>>,
    pub img_url: Option<Seq<char>>,
    pub data: Seq<u8>,
}

/// The text of an optional string.
pub open spec fn text_of(s: Option<String>) -> Option<Seq<char>> {
    match s {
        Some(s) => Some(s@),
        None => None,
    }
}

impl View for PrintItem {
    type V = PrintItemView;

    closed spec fn view(&self) -> PrintItemView {
        PrintItemView {
            title: text_of(self.title),
            description: text_of(self.description),
            img_url: text_of(self.img_url),
            data: self.data@,
        }
    }
}

impl PrintItem {
    /// A code to print, with nothing else.
    pub fn new(data: Rc<Vec<u8>>) -> (r: PrintItem)
        ensures
            r@ == (PrintItemView { title: None, description: None, img_url: None, data: data@ }),
    {
        PrintItem { title: None, description: None, img_url: None, data }
    }

    /// The item with the title.
    pub fn title(self, title: Option<String>) -> (r: PrintItem)
        ensures
            r@ == (PrintItemView { title: text_of(title), ..self@ }),
    {
        PrintItem { title, ..self }
    }

    /// The item with the description.
    pub fn description(self, description: Option<String>) -> (r: PrintItem)
        ensures
            r@ == (PrintItemView { description: text_of(description), ..self@ }),
    {
        PrintItem { description, ..self }
    }

    /// The item with the picture.
    pub fn img_url(self, img_url: Option<String>) -> (r: PrintItem)
        ensures
            r@ == (PrintItemView { img_url: text_of(img_url), ..self@ }),
    {
        PrintItem { img_url, ..self }
    }

    /// The title.
    pub fn get_title(&self) -> (r: &Option<String>)
        ensures
            text_of(*r) == self@.title,
    {
        &self.title
    }

    /// The description.
    pub fn get_description(&self) -> (r: &Option<String>)
        ensures
            text_of(*r) == self@.description,
    {
        &self.description
    }

    /// The picture.
    pub fn get_img_url(&self) -> (r: &Option<String>)
        ensures
            text_of(*r) == self@.img_url,
    {
        &self.img_url
    }

    /// The code.
    pub fn data(&self) -> (r: &Vec<u8>)
        ensures
            r@ == self@.data,
    {
        &*self.data
    }
}

} // verus!
