use vstd::prelude::*;

use crate::conditions::{condition_value, CheckView, Condition, ConditionView};
use crate::data::{
    initiator_of, with_initiator, EventData, EventDataView, GiveData, MoveData, PickData, TalkData, UseItemData,
    VoidData,
};
use crate::assoc::{as_map, keys_distinct};
use crate::json::{fields_view, make_object, push_field, same_fields, Json, JsonView};
use crate::order::{text_less, text_lt};
use crate::text::{clone_strings, decimal, decimal_string, texts};
use crate::updates::{change_in_range, change_value, Change, ChangeView};
use crate::world::{opt_text, GeoLocation, ItemView, World, WorldView};
use crate::{Item, Named, Tagged};

verus! {

/// The values of a list of changes.
pub open spec fn change_views(s: Seq<Change>) -> Seq<ChangeView> {
    s.map_values(|c: Change| c@)
}

/// The mathematical value of an event.
pub struct EventView {
    pub name: Seq<char>,
    pub data: EventDataView,
    pub tags: Seq<Seq<char>>,
    pub updates: Seq<ChangeView>,
    pub condition: ConditionView,
}

/// The name of the kind of an event.
pub open spec fn kind_name(d: EventDataView) -> Seq<char> {
    match d {
        EventDataView::Pick { .. } => "Pick"@,
        EventDataView::Give { .. } => "Give"@,
        EventDataView::UseItem { .. } => "UseItem"@,
        EventDataView::Move { .. } => "Move"@,
        EventDataView::Void { .. } => "Void"@,
        EventDataView::Talk { .. } => "Talk"@,
    }
}

/// The items an event is about.
pub open spec fn event_items(d: EventDataView) -> Seq<Seq<char>> {
    match d {
        EventDataView::Pick { item, .. } => seq![item],
        EventDataView::Give { item, .. } => seq![item],
        EventDataView::UseItem { item, .. } => seq![item],
        EventDataView::Move { .. } => seq![],
        EventDataView::Void { item, .. } => match item {
            Some(i) => seq![i],
            None => seq![],
        },
        EventDataView::Talk { .. } => seq![],
    }
}

/// The characters an event is about.
pub open spec fn event_characters(d: EventDataView) -> Seq<Seq<char>> {
    match d {
        EventDataView::Pick { character, .. } => seq![character],
        EventDataView::Give { from_character, to_character, .. } => seq![from_character, to_character],
        EventDataView::UseItem { character, .. } => seq![character],
        EventDataView::Move { character, .. } => seq![character],
        EventDataView::Void { character, .. } => seq![character],
        EventDataView::Talk { character, .. } => seq![character],
    }
}

/// A character picks up an item.
#[derive(Debug)]
pub struct Pick {
    name: String,
    data: PickData,
    tags: Vec<String>,
    world_updates: Vec<Change>,
    condition: Condition,
}

impl View for Pick {
    type V = EventView;

    closed spec fn view(&self) -> EventView {
        EventView {
            name: self.name@,
            data: self.data@,
            tags: texts(self.tags@),
            updates: change_views(self.world_updates@),
            condition: self.condition@,
        }
    }
}

impl Pick {
    /// A new event of the given name and data, with no tags and no changes,
    /// that can always be triggered.
    pub fn new(name: &str, data: PickData) -> (r: Pick)
        ensures
            r@ == (EventView {
                name: name@,
                data: data@,
                tags: Seq::empty(),
                updates: Seq::empty(),
                condition: ConditionView::Check(CheckView::Always),
            }),
    {
        let r = Pick {
            name: name.to_owned(),
            data,
            tags: Vec::new(),
            world_updates: Vec::new(),
            condition: Condition::default(),
        };
        assert(texts(r.tags@) =~= Seq::empty());
        assert(change_views(r.world_updates@) =~= Seq::empty());
        r
    }

    /// The name of this kind of event.
    pub fn kind(&self) -> (r: &str)
        ensures
            r@ == kind_name(self@.data),
    {
        "Pick"
    }

    /// The name of the event.
    pub fn name(&self) -> (r: &str)
        ensures
            r@ == self@.name,
    {
        self.name.as_str()
    }

    /// The data of the event.
    pub fn data(&self) -> (r: &PickData)
        ensures
            r@ == self@.data,
    {
        &self.data
    }

    /// The character that starts the event.
    pub fn initiator(&self) -> (r: String)
        ensures
            r@ == initiator_of(self@.data),
    {
        self.data.initiator()
    }

    /// Makes `initiator` the character that starts the event.
    pub fn set_initiator(&mut self, initiator: String)
        ensures
            final(self)@ == (EventView { data: with_initiator(old(self)@.data, initiator@), ..old(self)@ }),
    {
        self.data.set_initiator(initiator);
    }

    /// Sets the changes the event makes when it is triggered.
    pub fn set_world_updates(&mut self, updates: Vec<Change>)
        ensures
            final(self)@ == (EventView { updates: change_views(updates@), ..old(self)@ }),
    {
        self.world_updates = updates;
    }

    /// Sets the condition under which the event can be triggered.
    pub fn set_condition(&mut self, condition: Condition)
        ensures
            final(self)@ == (EventView { condition: condition@, ..old(self)@ }),
    {
        self.condition = condition;
    }

    /// The changes the event makes when it is triggered.
    pub fn get_world_updates(&self) -> (r: &Vec<Change>)
        ensures
            change_views(r@) == self@.updates,
    {
        &self.world_updates
    }

    /// The condition under which the event can be triggered.
    pub fn get_condition(&self) -> (r: &Condition)
        ensures
            r@ == self@.condition,
    {
        &self.condition
    }

    pub fn character(&self) -> (r: &str)
        ensures
            r@ == self@.data->Pick_character,
    {
        self.data.character.as_str()
    }

    pub fn item(&self) -> (r: &str)
        ensures
            r@ == self@.data->Pick_item,
    {
        self.data.item.as_str()
    }
}

impl Tagged for Pick {
    fn get_tags(&self) -> (r: Vec<String>)
        ensures
            texts(r@) == self@.tags,
    {
        clone_strings(&self.tags)
    }

    fn set_tags(&mut self, tags: Vec<String>)
        ensures
            final(self)@ == (EventView { tags: texts(tags@), ..old(self)@ }),
    {
        self.tags = tags;
    }
}

/// A character gives an item to another one.
#[derive(Debug)]
pub struct Give {
    name: String,
    data: GiveData,
    tags: Vec<String>,
    world_updates: Vec<Change>,
    condition: Condition,
}

impl View for Give {
    type V = EventView;

    closed spec fn view(&self) -> EventView {
        EventView {
            name: self.name@,
            data: self.data@,
            tags: texts(self.tags@),
            updates: change_views(self.world_updates@),
            condition: self.condition@,
        }
    }
}

impl Give {
    /// A new event of the given name and data, with no tags and no changes,
    /// that can always be triggered.
    pub fn new(name: &str, data: GiveData) -> (r: Give)
        ensures
            r@ == (EventView {
                name: name@,
                data: data@,
                tags: Seq::empty(),
                updates: Seq::empty(),
                condition: ConditionView::Check(CheckView::Always),
            }),
    {
        let r = Give {
            name: name.to_owned(),
            data,
            tags: Vec::new(),
            world_updates: Vec::new(),
            condition: Condition::default(),
        };
        assert(texts(r.tags@) =~= Seq::empty());
        assert(change_views(r.world_updates@) =~= Seq::empty());
        r
    }

    /// The name of this kind of event.
    pub fn kind(&self) -> (r: &str)
        ensures
            r@ == kind_name(self@.data),
    {
        "Give"
    }

    /// The name of the event.
    pub fn name(&self) -> (r: &str)
        ensures
            r@ == self@.name,
    {
        self.name.as_str()
    }

    /// The data of the event.
    pub fn data(&self) -> (r: &GiveData)
        ensures
            r@ == self@.data,
    {
        &self.data
    }

    /// The character that starts the event.
    pub fn initiator(&self) -> (r: String)
        ensures
            r@ == initiator_of(self@.data),
    {
        self.data.initiator()
    }

    /// Makes `initiator` the character that starts the event.
    pub fn set_initiator(&mut self, initiator: String)
        ensures
            final(self)@ == (EventView { data: with_initiator(old(self)@.data, initiator@), ..old(self)@ }),
    {
        self.data.set_initiator(initiator);
    }

    /// Sets the changes the event makes when it is triggered.
    pub fn set_world_updates(&mut self, updates: Vec<Change>)
        ensures
            final(self)@ == (EventView { updates: change_views(updates@), ..old(self)@ }),
    {
        self.world_updates = updates;
    }

    /// Sets the condition under which the event can be triggered.
    pub fn set_condition(&mut self, condition: Condition)
        ensures
            final(self)@ == (EventView { condition: condition@, ..old(self)@ }),
    {
        self.condition = condition;
    }

    /// The changes the event makes when it is triggered.
    pub fn get_world_updates(&self) -> (r: &Vec<Change>)
        ensures
            change_views(r@) == self@.updates,
    {
        &self.world_updates
    }

    /// The condition under which the event can be triggered.
    pub fn get_condition(&self) -> (r: &Condition)
        ensures
            r@ == self@.condition,
    {
        &self.condition
    }

    pub fn from_character(&self) -> (r: &str)
        ensures
            r@ == self@.data->Give_from_character,
    {
        self.data.from_character.as_str()
    }

    pub fn to_character(&self) -> (r: &str)
        ensures
            r@ == self@.data->Give_to_character,
    {
        self.data.to_character.as_str()
    }

    pub fn item(&self) -> (r: &str)
        ensures
            r@ == self@.data->Give_item,
    {
        self.data.item.as_str()
    }
}

impl Tagged for Give {
    fn get_tags(&self) -> (r: Vec<String>)
        ensures
            texts(r@) == self@.tags,
    {
        clone_strings(&self.tags)
    }

    fn set_tags(&mut self, tags: Vec<String>)
        ensures
            final(self)@ == (EventView { tags: texts(tags@), ..old(self)@ }),
    {
        self.tags = tags;
    }
}

/// A character uses an item.
#[derive(Debug)]
pub struct UseItem {
    name: String,
    data: UseItemData,
    tags: Vec<String>,
    world_updates: Vec<Change>,
    condition: Condition,
}

impl View for UseItem {
    type V = EventView;

    closed spec fn view(&self) -> EventView {
        EventView {
            name: self.name@,
            data: self.data@,
            tags: texts(self.tags@),
            updates: change_views(self.world_updates@),
            condition: self.condition@,
        }
    }
}

impl UseItem {
    /// A new event of the given name and data, with no tags and no changes,
    /// that can always be triggered.
    pub fn new(name: &str, data: UseItemData) -> (r: UseItem)
        ensures
            r@ == (EventView {
                name: name@,
                data: data@,
                tags: Seq::empty(),
                updates: Seq::empty(),
                condition: ConditionView::Check(CheckView::Always),
            }),
    {
        let r = UseItem {
            name: name.to_owned(),
            data,
            tags: Vec::new(),
            world_updates: Vec::new(),
            condition: Condition::default(),
        };
        assert(texts(r.tags@) =~= Seq::empty());
        assert(change_views(r.world_updates@) =~= Seq::empty());
        r
    }

    /// The name of this kind of event.
    pub fn kind(&self) -> (r: &str)
        ensures
            r@ == kind_name(self@.data),
    {
        "UseItem"
    }

    /// The name of the event.
    pub fn name(&self) -> (r: &str)
        ensures
            r@ == self@.name,
    {
        self.name.as_str()
    }

    /// The data of the event.
    pub fn data(&self) -> (r: &UseItemData)
        ensures
            r@ == self@.data,
    {
        &self.data
    }

    /// The character that starts the event.
    pub fn initiator(&self) -> (r: String)
        ensures
            r@ == initiator_of(self@.data),
    {
        self.data.initiator()
    }

    /// Makes `initiator` the character that starts the event.
    pub fn set_initiator(&mut self, initiator: String)
        ensures
            final(self)@ == (EventView { data: with_initiator(old(self)@.data, initiator@), ..old(self)@ }),
    {
        self.data.set_initiator(initiator);
    }

    /// Sets the changes the event makes when it is triggered.
    pub fn set_world_updates(&mut self, updates: Vec<Change>)
        ensures
            final(self)@ == (EventView { updates: change_views(updates@), ..old(self)@ }),
    {
        self.world_updates = updates;
    }

    /// Sets the condition under which the event can be triggered.
    pub fn set_condition(&mut self, condition: Condition)
        ensures
            final(self)@ == (EventView { condition: condition@, ..old(self)@ }),
    {
        self.condition = condition;
    }

    /// The changes the event makes when it is triggered.
    pub fn get_world_updates(&self) -> (r: &Vec<Change>)
        ensures
            change_views(r@) == self@.updates,
    {
        &self.world_updates
    }

    /// The condition under which the event can be triggered.
    pub fn get_condition(&self) -> (r: &Condition)
        ensures
            r@ == self@.condition,
    {
        &self.condition
    }

    pub fn character(&self) -> (r: &str)
        ensures
            r@ == self@.data->UseItem_character,
    {
        self.data.character.as_str()
    }

    pub fn item(&self) -> (r: &str)
        ensures
            r@ == self@.data->UseItem_item,
    {
        self.data.item.as_str()
    }
}

impl Tagged for UseItem {
    fn get_tags(&self) -> (r: Vec<String>)
        ensures
            texts(r@) == self@.tags,
    {
        clone_strings(&self.tags)
    }

    fn set_tags(&mut self, tags: Vec<String>)
        ensures
            final(self)@ == (EventView { tags: texts(tags@), ..old(self)@ }),
    {
        self.tags = tags;
    }
}

/// A character moves to a scene.
#[derive(Debug)]
pub struct Move {
    name: String,
    data: MoveData,
    tags: Vec<String>,
    world_updates: Vec<Change>,
    condition: Condition,
}

impl View for Move {
    type V = EventView;

    closed spec fn view(&self) -> EventView {
        EventView {
            name: self.name@,
            data: self.data@,
            tags: texts(self.tags@),
            updates: change_views(self.world_updates@),
            condition: self.condition@,
        }
    }
}

impl Move {
    /// A new event of the given name and data, with no tags and no changes,
    /// that can always be triggered.
    pub fn new(name: &str, data: MoveData) -> (r: Move)
        ensures
            r@ == (EventView {
                name: name@,
                data: data@,
                tags: Seq::empty(),
                updates: Seq::empty(),
                condition: ConditionView::Check(CheckView::Always),
            }),
    {
        let r = Move {
            name: name.to_owned(),
            data,
            tags: Vec::new(),
            world_updates: Vec::new(),
            condition: Condition::default(),
        };
        assert(texts(r.tags@) =~= Seq::empty());
        assert(change_views(r.world_updates@) =~= Seq::empty());
        r
    }

    /// The name of this kind of event.
    pub fn kind(&self) -> (r: &str)
        ensures
            r@ == kind_name(self@.data),
    {
        "Move"
    }

    /// The name of the event.
    pub fn name(&self) -> (r: &str)
        ensures
            r@ == self@.name,
    {
        self.name.as_str()
    }

    /// The data of the event.
    pub fn data(&self) -> (r: &MoveData)
        ensures
            r@ == self@.data,
    {
        &self.data
    }

    /// The character that starts the event.
    pub fn initiator(&self) -> (r: String)
        ensures
            r@ == initiator_of(self@.data),
    {
        self.data.initiator()
    }

    /// Makes `initiator` the character that starts the event.
    pub fn set_initiator(&mut self, initiator: String)
        ensures
            final(self)@ == (EventView { data: with_initiator(old(self)@.data, initiator@), ..old(self)@ }),
    {
        self.data.set_initiator(initiator);
    }

    /// Sets the changes the event makes when it is triggered.
    pub fn set_world_updates(&mut self, updates: Vec<Change>)
        ensures
            final(self)@ == (EventView { updates: change_views(updates@), ..old(self)@ }),
    {
        self.world_updates = updates;
    }

    /// Sets the condition under which the event can be triggered.
    pub fn set_condition(&mut self, condition: Condition)
        ensures
            final(self)@ == (EventView { condition: condition@, ..old(self)@ }),
    {
        self.condition = condition;
    }

    /// The changes the event makes when it is triggered.
    pub fn get_world_updates(&self) -> (r: &Vec<Change>)
        ensures
            change_views(r@) == self@.updates,
    {
        &self.world_updates
    }

    /// The condition under which the event can be triggered.
    pub fn get_condition(&self) -> (r: &Condition)
        ensures
            r@ == self@.condition,
    {
        &self.condition
    }

    pub fn character(&self) -> (r: &str)
        ensures
            r@ == self@.data->Move_character,
    {
        self.data.character.as_str()
    }

    pub fn scene(&self) -> (r: &str)
        ensures
            r@ == self@.data->Move_scene,
    {
        self.data.scene.as_str()
    }
}

impl Tagged for Move {
    fn get_tags(&self) -> (r: Vec<String>)
        ensures
            texts(r@) == self@.tags,
    {
        clone_strings(&self.tags)
    }

    fn set_tags(&mut self, tags: Vec<String>)
        ensures
            final(self)@ == (EventView { tags: texts(tags@), ..old(self)@ }),
    {
        self.tags = tags;
    }
}

/// A character does something that changes nothing by itself.
#[derive(Debug)]
pub struct Void {
    name: String,
    data: VoidData,
    tags: Vec<String>,
    world_updates: Vec<Change>,
    condition: Condition,
}

impl View for Void {
    type V = EventView;

    closed spec fn view(&self) -> EventView {
        EventView {
            name: self.name@,
            data: self.data@,
            tags: texts(self.tags@),
            updates: change_views(self.world_updates@),
            condition: self.condition@,
        }
    }
}

impl Void {
    /// A new event of the given name and data, with no tags and no changes,
    /// that can always be triggered.
    pub fn new(name: &str, data: VoidData) -> (r: Void)
        ensures
            r@ == (EventView {
                name: name@,
                data: data@,
                tags: Seq::empty(),
                updates: Seq::empty(),
                condition: ConditionView::Check(CheckView::Always),
            }),
    {
        let r = Void {
            name: name.to_owned(),
            data,
            tags: Vec::new(),
            world_updates: Vec::new(),
            condition: Condition::default(),
        };
        assert(texts(r.tags@) =~= Seq::empty());
        assert(change_views(r.world_updates@) =~= Seq::empty());
        r
    }

    /// The name of this kind of event.
    pub fn kind(&self) -> (r: &str)
        ensures
            r@ == kind_name(self@.data),
    {
        "Void"
    }

    /// The name of the event.
    pub fn name(&self) -> (r: &str)
        ensures
            r@ == self@.name,
    {
        self.name.as_str()
    }

    /// The data of the event.
    pub fn data(&self) -> (r: &VoidData)
        ensures
            r@ == self@.data,
    {
        &self.data
    }

    /// The character that starts the event.
    pub fn initiator(&self) -> (r: String)
        ensures
            r@ == initiator_of(self@.data),
    {
        self.data.initiator()
    }

    /// Makes `initiator` the character that starts the event.
    pub fn set_initiator(&mut self, initiator: String)
        ensures
            final(self)@ == (EventView { data: with_initiator(old(self)@.data, initiator@), ..old(self)@ }),
    {
        self.data.set_initiator(initiator);
    }

    /// Sets the changes the event makes when it is triggered.
    pub fn set_world_updates(&mut self, updates: Vec<Change>)
        ensures
            final(self)@ == (EventView { updates: change_views(updates@), ..old(self)@ }),
    {
        self.world_updates = updates;
    }

    /// Sets the condition under which the event can be triggered.
    pub fn set_condition(&mut self, condition: Condition)
        ensures
            final(self)@ == (EventView { condition: condition@, ..old(self)@ }),
    {
        self.condition = condition;
    }

    /// The changes the event makes when it is triggered.
    pub fn get_world_updates(&self) -> (r: &Vec<Change>)
        ensures
            change_views(r@) == self@.updates,
    {
        &self.world_updates
    }

    /// The condition under which the event can be triggered.
    pub fn get_condition(&self) -> (r: &Condition)
        ensures
            r@ == self@.condition,
    {
        &self.condition
    }

    pub fn character(&self) -> (r: &str)
        ensures
            r@ == self@.data->Void_character,
    {
        self.data.character.as_str()
    }

    pub fn item(&self) -> (r: &Option<String>)
        ensures
            opt_text(*r) == self@.data->Void_item,
    {
        &self.data.item
    }
}

impl Tagged for Void {
    fn get_tags(&self) -> (r: Vec<String>)
        ensures
            texts(r@) == self@.tags,
    {
        clone_strings(&self.tags)
    }

    fn set_tags(&mut self, tags: Vec<String>)
        ensures
            final(self)@ == (EventView { tags: texts(tags@), ..old(self)@ }),
    {
        self.tags = tags;
    }
}

/// A character says a line of a scene's dialog.
#[derive(Debug)]
pub struct Talk {
    name: String,
    data: TalkData,
    tags: Vec<String>,
    world_updates: Vec<Change>,
    condition: Condition,
}

impl View for Talk {
    type V = EventView;

    closed spec fn view(&self) -> EventView {
        EventView {
            name: self.name@,
            data: self.data@,
            tags: texts(self.tags@),
            updates: change_views(self.world_updates@),
            condition: self.condition@,
        }
    }
}

impl Talk {
    /// A new event of the given name and data, with no tags and no changes,
    /// that can always be triggered.
    pub fn new(name: &str, data: TalkData) -> (r: Talk)
        ensures
            r@ == (EventView {
                name: name@,
                data: data@,
                tags: Seq::empty(),
                updates: Seq::empty(),
                condition: ConditionView::Check(CheckView::Always),
            }),
    {
        let r = Talk {
            name: name.to_owned(),
            data,
            tags: Vec::new(),
            world_updates: Vec::new(),
            condition: Condition::default(),
        };
        assert(texts(r.tags@) =~= Seq::empty());
        assert(change_views(r.world_updates@) =~= Seq::empty());
        r
    }

    /// The name of this kind of event.
    pub fn kind(&self) -> (r: &str)
        ensures
            r@ == kind_name(self@.data),
    {
        "Talk"
    }

    /// The name of the event.
    pub fn name(&self) -> (r: &str)
        ensures
            r@ == self@.name,
    {
        self.name.as_str()
    }

    /// The data of the event.
    pub fn data(&self) -> (r: &TalkData)
        ensures
            r@ == self@.data,
    {
        &self.data
    }

    /// The character that starts the event.
    pub fn initiator(&self) -> (r: String)
        ensures
            r@ == initiator_of(self@.data),
    {
        self.data.initiator()
    }

    /// Makes `initiator` the character that starts the event.
    pub fn set_initiator(&mut self, initiator: String)
        ensures
            final(self)@ == (EventView { data: with_initiator(old(self)@.data, initiator@), ..old(self)@ }),
    {
        self.data.set_initiator(initiator);
    }

    /// Sets the changes the event makes when it is triggered.
    pub fn set_world_updates(&mut self, updates: Vec<Change>)
        ensures
            final(self)@ == (EventView { updates: change_views(updates@), ..old(self)@ }),
    {
        self.world_updates = updates;
    }

    /// Sets the condition under which the event can be triggered.
    pub fn set_condition(&mut self, condition: Condition)
        ensures
            final(self)@ == (EventView { condition: condition@, ..old(self)@ }),
    {
        self.condition = condition;
    }

    /// The changes the event makes when it is triggered.
    pub fn get_world_updates(&self) -> (r: &Vec<Change>)
        ensures
            change_views(r@) == self@.updates,
    {
        &self.world_updates
    }

    /// The condition under which the event can be triggered.
    pub fn get_condition(&self) -> (r: &Condition)
        ensures
            r@ == self@.condition,
    {
        &self.condition
    }

    pub fn character(&self) -> (r: &str)
        ensures
            r@ == self@.data->Talk_character,
    {
        self.data.character.as_str()
    }

    pub fn scene(&self) -> (r: &str)
        ensures
            r@ == self@.data->Talk_scene,
    {
        self.data.scene.as_str()
    }

    pub fn dialog(&self) -> (r: usize)
        ensures
            r == self@.data->Talk_dialog,
    {
        self.data.dialog
    }
}

impl Tagged for Talk {
    fn get_tags(&self) -> (r: Vec<String>)
        ensures
            texts(r@) == self@.tags,
    {
        clone_strings(&self.tags)
    }

    fn set_tags(&mut self, tags: Vec<String>)
        ensures
            final(self)@ == (EventView { tags: texts(tags@), ..old(self)@ }),
    {
        self.tags = tags;
    }
}

/// An event of one of the library's kinds.
#[derive(Debug)]
pub enum Event {
    Pick(Pick),
    Give(Give),
    UseItem(UseItem),
    Move(Move),
    Void(Void),
    Talk(Talk),
}

impl View for Event {
    type V = EventView;

    open spec fn view(&self) -> EventView {
        match self {
            Event::Pick(e) => e@,
            Event::Give(e) => e@,
            Event::UseItem(e) => e@,
            Event::Move(e) => e@,
            Event::Void(e) => e@,
            Event::Talk(e) => e@,
        }
    }
}

// ------------------------------------------------------------ triggering

/// The world after `n` is recorded as the last event of each of `items`.
pub open spec fn stamp(w: WorldView, items: Seq<Seq<char>>, n: usize) -> WorldView
    decreases items.len(),
{
    if items.len() == 0 {
        w
    } else {
        let name = items[0];
        stamp(
            WorldView { items: w.items.insert(name, ItemView { last_event: Some(n), ..w.items[name] }), ..w },
            items.drop_first(),
            n,
        )
    }
}

/// Every one of `items` is an item of the world.
pub open spec fn all_present(w: WorldView, items: Seq<Seq<char>>) -> bool {
    forall|k: int| 0 <= k < items.len() ==> w.items.contains_key(#[trigger] items[k])
}

/// The world after each change is made in turn, each followed by recording
/// `n` as the last event of each of `items`; `None` where a change fails, an
/// item is missing after a change, or a dialog number would overflow.
pub open spec fn run_updates(
    updates: Seq<ChangeView>,
    items: Seq<Seq<char>>,
    w: WorldView,
    n: usize,
) -> Option<WorldView>
    decreases updates.len(),
{
    if updates.len() == 0 {
        Some(w)
    } else if !change_in_range(updates[0], w) {
        None
    } else {
        match change_value(updates[0], w) {
            Err(_) => None,
            Ok(w1) => if all_present(w1, items) {
                run_updates(updates.drop_first(), items, stamp(w1, items, n), n)
            } else {
                None
            },
        }
    }
}

/// The world after the event is triggered: its changes are made, the items it
/// is about get the current event number as their last event after each
/// change, and the event count grows by one. `None` where that goes wrong.
pub open spec fn triggered(e: EventView, w: WorldView) -> Option<WorldView> {
    match run_updates(e.updates, event_items(e.data), w, w.event_count) {
        Some(w2) => if w2.event_count < usize::MAX {
            Some(WorldView { event_count: (w2.event_count + 1) as usize, ..w2 })
        } else {
            None
        },
        None => None,
    }
}

proof fn lemma_stamp_keeps(w: WorldView, items: Seq<Seq<char>>, n: usize)
    requires
        all_present(w, items),
    ensures
        stamp(w, items, n).items.dom() == w.items.dom(),
        stamp(w, items, n).event_count == w.event_count,
        stamp(w, items, n) == (WorldView { items: stamp(w, items, n).items, ..w }),
    decreases items.len(),
{
    if items.len() > 0 {
        let name = items[0];
        let w1 = WorldView { items: w.items.insert(name, ItemView { last_event: Some(n), ..w.items[name] }), ..w };
        assert(w1.items.dom() =~= w.items.dom());
        assert forall|k: int| 0 <= k < items.drop_first().len() implies w1.items.contains_key(
            #[trigger] items.drop_first()[k],
        ) by {
            assert(items.drop_first()[k] == items[k + 1]);
        }
        lemma_stamp_keeps(w1, items.drop_first(), n);
    }
}

/// Records `n` as the last event of each item of `items`.
fn stamp_items(items: &Vec<String>, world: &mut World, n: usize)
    requires
        old(world).wf(),
        all_present(old(world)@, texts(items@)),
    ensures
        final(world).wf(),
        final(world).spec_id() == old(world).spec_id(),
        final(world)@ == stamp(old(world)@, texts(items@), n),
{
    let ghost iv = texts(items@);
    let ghost target = stamp(world@, iv, n);
    let mut k: usize = 0;
    assert(iv.skip(0) =~= iv);
    while k < items.len()
        invariant
            world.wf(),
            world.spec_id() == old(world).spec_id(),
            iv == texts(items@),
            k <= items.len(),
            all_present(world@, iv),
            stamp(world@, iv.skip(k as int), n) == target,
        decreases items.len() - k,
    {
        let ghost before = world@;
        assert(iv[k as int] == items@[k as int]@);
        assert(before.items.contains_key(iv[k as int]));
        world.set_item_last_event(&items[k], n);
        proof {
            assert(iv.skip(k as int)[0] == iv[k as int]);
            assert(iv.skip(k as int).drop_first() =~= iv.skip(k + 1));
            assert(world@.items.dom() =~= before.items.dom());
            assert forall|j: int| 0 <= j < iv.len() implies world@.items.contains_key(#[trigger] iv[j]) by {
                assert(before.items.contains_key(iv[j]));
            }
        }
        k += 1;
    }
    assert(iv.skip(k as int) =~= Seq::<Seq<char>>::empty());
}

/// Makes the changes in turn, each followed by stamping the items.
fn run_changes(updates: &Vec<Change>, items: &Vec<String>, world: &mut World)
    requires
        old(world).wf(),
        run_updates(change_views(updates@), texts(items@), old(world)@, old(world)@.event_count) is Some,
    ensures
        final(world).wf(),
        final(world).spec_id() == old(world).spec_id(),
        final(world)@ == run_updates(
            change_views(updates@),
            texts(items@),
            old(world)@,
            old(world)@.event_count,
        )->Some_0,
{
    let n = world.event_count();
    let ghost uv = change_views(updates@);
    let ghost iv = texts(items@);
    let ghost target = run_updates(uv, iv, world@, n);
    let mut i: usize = 0;
    assert(uv.skip(0) =~= uv);
    while i < updates.len()
        invariant
            world.wf(),
            world.spec_id() == old(world).spec_id(),
            uv == change_views(updates@),
            iv == texts(items@),
            i <= updates.len(),
            world@.event_count == n,
            run_updates(uv.skip(i as int), iv, world@, n) == target,
            target is Some,
        decreases updates.len() - i,
    {
        let ghost before = world@;
        proof {
            assert(uv.skip(i as int)[0] == uv[i as int]);
            assert(uv[i as int] == updates@[i as int]@);
            assert(uv.skip(i as int).drop_first() =~= uv.skip(i + 1));
        }
        let r = updates[i].change(world);
        proof {
            let w1 = change_value(uv[i as int], before)->Ok_0;
            assert(world@ == w1);
            lemma_stamp_keeps(w1, iv, n);
        }
        stamp_items(items, world, n);
        i += 1;
    }
    assert(uv.skip(i as int) =~= Seq::<ChangeView>::empty());
}

/// Whether every one of `items` is an item of the world.
fn items_present(items: &Vec<String>, world: &World) -> (r: bool)
    requires
        world.wf(),
    ensures
        r == all_present(world@, texts(items@)),
{
    let mut i: usize = 0;
    while i < items.len()
        invariant
            world.wf(),
            i <= items.len(),
            forall|k: int| 0 <= k < i ==> world@.items.contains_key(#[trigger] texts(items@)[k]),
        decreases items.len() - i,
    {
        if world.item(&items[i]).is_none() {
            assert(texts(items@)[i as int] == items@[i as int]@);
            return false;
        }
        assert(texts(items@)[i as int] == items@[i as int]@);
        i += 1;
    }
    true
}

/// Makes the changes in turn, recording `n` as the last event of the items
/// after each; tells whether all went through. Where they do not, the world
/// may hold some of the changes.
fn try_run_changes(updates: &Vec<Change>, items: &Vec<String>, world: &mut World) -> (r: bool)
    requires
        old(world).wf(),
    ensures
        final(world).wf(),
        final(world).spec_id() == old(world).spec_id(),
        r == run_updates(change_views(updates@), texts(items@), old(world)@, old(world)@.event_count) is Some,
        r ==> final(world)@ == run_updates(
            change_views(updates@),
            texts(items@),
            old(world)@,
            old(world)@.event_count,
        )->Some_0,
{
    let n = world.event_count();
    let ghost uv = change_views(updates@);
    let ghost iv = texts(items@);
    let ghost target = run_updates(uv, iv, world@, n);
    let mut i: usize = 0;
    assert(uv.skip(0) =~= uv);
    while i < updates.len()
        invariant
            world.wf(),
            world.spec_id() == old(world).spec_id(),
            uv == change_views(updates@),
            iv == texts(items@),
            i <= updates.len(),
            world@.event_count == n,
            run_updates(uv.skip(i as int), iv, world@, n) == target,
            target == run_updates(uv, iv, old(world)@, n),
            n == old(world)@.event_count,
        decreases updates.len() - i,
    {
        let ghost before = world@;
        proof {
            assert(uv.skip(i as int).len() > 0);
            assert(uv.skip(i as int)[0] == uv[i as int]);
            assert(uv[i as int] == updates@[i as int]@);
            assert(uv.skip(i as int).drop_first() =~= uv.skip(i + 1));
        }
        if !updates[i].in_range(world) {
            assert(run_updates(uv.skip(i as int), iv, before, n) is None);
            return false;
        }
        let r = updates[i].change(world);
        if r.is_err() {
            assert(change_value(uv[i as int], before) is Err);
            assert(run_updates(uv.skip(i as int), iv, before, n) is None);
            return false;
        }
        if !items_present(items, world) {
            return false;
        }
        proof {
            let w1 = change_value(uv[i as int], before)->Ok_0;
            assert(world@ == w1);
            lemma_stamp_keeps(w1, iv, n);
        }
        stamp_items(items, world, n);
        i += 1;
    }
    assert(uv.skip(i as int) =~= Seq::<ChangeView>::empty());
    true
}

impl Event {
    fn condition_ref(&self) -> (r: &Condition)
        ensures
            r@ == self@.condition,
    {
        match self {
            Event::Pick(e) => e.get_condition(),
            Event::Give(e) => e.get_condition(),
            Event::UseItem(e) => e.get_condition(),
            Event::Move(e) => e.get_condition(),
            Event::Void(e) => e.get_condition(),
            Event::Talk(e) => e.get_condition(),
        }
    }

    fn updates_ref(&self) -> (r: &Vec<Change>)
        ensures
            change_views(r@) == self@.updates,
    {
        match self {
            Event::Pick(e) => e.get_world_updates(),
            Event::Give(e) => e.get_world_updates(),
            Event::UseItem(e) => e.get_world_updates(),
            Event::Move(e) => e.get_world_updates(),
            Event::Void(e) => e.get_world_updates(),
            Event::Talk(e) => e.get_world_updates(),
        }
    }

    /// The name of the kind of the event.
    pub fn kind(&self) -> (r: &str)
        ensures
            r@ == kind_name(self@.data),
    {
        match self {
            Event::Pick(e) => e.kind(),
            Event::Give(e) => e.kind(),
            Event::UseItem(e) => e.kind(),
            Event::Move(e) => e.kind(),
            Event::Void(e) => e.kind(),
            Event::Talk(e) => e.kind(),
        }
    }

    /// The name of the event.
    pub fn name(&self) -> (r: &str)
        ensures
            r@ == self@.name,
    {
        match self {
            Event::Pick(e) => e.name(),
            Event::Give(e) => e.name(),
            Event::UseItem(e) => e.name(),
            Event::Move(e) => e.name(),
            Event::Void(e) => e.name(),
            Event::Talk(e) => e.name(),
        }
    }

    /// The character that starts the event.
    pub fn initiator(&self) -> (r: String)
        ensures
            r@ == initiator_of(self@.data),
    {
        match self {
            Event::Pick(e) => e.initiator(),
            Event::Give(e) => e.initiator(),
            Event::UseItem(e) => e.initiator(),
            Event::Move(e) => e.initiator(),
            Event::Void(e) => e.initiator(),
            Event::Talk(e) => e.initiator(),
        }
    }

    /// Makes `initiator` the character that starts the event.
    pub fn set_initiator(&mut self, initiator: String)
        ensures
            final(self)@ == (EventView { data: with_initiator(old(self)@.data, initiator@), ..old(self)@ }),
            kind_name(final(self)@.data) == kind_name(old(self)@.data),
    {
        match self {
            Event::Pick(e) => e.set_initiator(initiator),
            Event::Give(e) => e.set_initiator(initiator),
            Event::UseItem(e) => e.set_initiator(initiator),
            Event::Move(e) => e.set_initiator(initiator),
            Event::Void(e) => e.set_initiator(initiator),
            Event::Talk(e) => e.set_initiator(initiator),
        }
    }

    /// The condition under which the event can be triggered.
    pub fn get_condition(&self) -> (r: &Condition)
        ensures
            r@ == self@.condition,
    {
        self.condition_ref()
    }

    /// The changes the event makes when it is triggered.
    pub fn get_world_updates(&self) -> (r: &Vec<Change>)
        ensures
            change_views(r@) == self@.updates,
    {
        self.updates_ref()
    }

    /// Sets the condition under which the event can be triggered.
    pub fn set_condition(&mut self, condition: Condition)
        ensures
            final(self)@ == (EventView { condition: condition@, ..old(self)@ }),
    {
        match self {
            Event::Pick(e) => e.set_condition(condition),
            Event::Give(e) => e.set_condition(condition),
            Event::UseItem(e) => e.set_condition(condition),
            Event::Move(e) => e.set_condition(condition),
            Event::Void(e) => e.set_condition(condition),
            Event::Talk(e) => e.set_condition(condition),
        }
    }

    /// Sets the changes the event makes when it is triggered.
    pub fn set_world_updates(&mut self, updates: Vec<Change>)
        ensures
            final(self)@ == (EventView { updates: change_views(updates@), ..old(self)@ }),
    {
        match self {
            Event::Pick(e) => e.set_world_updates(updates),
            Event::Give(e) => e.set_world_updates(updates),
            Event::UseItem(e) => e.set_world_updates(updates),
            Event::Move(e) => e.set_world_updates(updates),
            Event::Void(e) => e.set_world_updates(updates),
            Event::Talk(e) => e.set_world_updates(updates),
        }
    }

    /// The tags of the event.
    pub fn get_tags(&self) -> (r: Vec<String>)
        ensures
            texts(r@) == self@.tags,
    {
        match self {
            Event::Pick(e) => e.get_tags(),
            Event::Give(e) => e.get_tags(),
            Event::UseItem(e) => e.get_tags(),
            Event::Move(e) => e.get_tags(),
            Event::Void(e) => e.get_tags(),
            Event::Talk(e) => e.get_tags(),
        }
    }

    /// Sets the tags of the event.
    pub fn set_tags(&mut self, tags: Vec<String>)
        ensures
            final(self)@ == (EventView { tags: texts(tags@), ..old(self)@ }),
    {
        match self {
            Event::Pick(e) => e.set_tags(tags),
            Event::Give(e) => e.set_tags(tags),
            Event::UseItem(e) => e.set_tags(tags),
            Event::Move(e) => e.set_tags(tags),
            Event::Void(e) => e.set_tags(tags),
            Event::Talk(e) => e.set_tags(tags),
        }
    }

    /// The items the event is about.
    pub fn items(&self) -> (r: Vec<String>)
        ensures
            texts(r@) == event_items(self@.data),
    {
        let mut r: Vec<String> = Vec::new();
        match self {
            Event::Pick(e) => r.push(e.data.item.clone()),
            Event::Give(e) => r.push(e.data.item.clone()),
            Event::UseItem(e) => r.push(e.data.item.clone()),
            Event::Move(_) => {},
            Event::Void(e) => match &e.data.item {
                Some(i) => r.push(i.clone()),
                None => {},
            },
            Event::Talk(_) => {},
        }
        assert(texts(r@) =~= event_items(self@.data));
        r
    }

    /// The characters the event is about.
    pub fn characters(&self) -> (r: Vec<String>)
        ensures
            texts(r@) == event_characters(self@.data),
    {
        let mut r: Vec<String> = Vec::new();
        match self {
            Event::Pick(e) => r.push(e.data.character.clone()),
            Event::Give(e) => {
                r.push(e.data.from_character.clone());
                r.push(e.data.to_character.clone());
            },
            Event::UseItem(e) => r.push(e.data.character.clone()),
            Event::Move(e) => r.push(e.data.character.clone()),
            Event::Void(e) => r.push(e.data.character.clone()),
            Event::Talk(e) => r.push(e.data.character.clone()),
        }
        assert(texts(r@) =~= event_characters(self@.data));
        r
    }

    /// Whether the event's condition holds in the world.
    pub fn can_be_triggered(&self, world: &World) -> (r: bool)
        requires
            world.wf(),
            condition_value(self@.condition, world@) is Ok,
        ensures
            r == condition_value(self@.condition, world@)->Ok_0,
    {
        match self.condition_ref().check(world) {
            Ok(b) => b,
            Err(_) => false,
        }
    }

    /// Makes the event's changes in the world and counts the event.
    pub fn trigger(&mut self, world: &mut World)
        requires
            old(world).wf(),
            triggered(old(self)@, old(world)@) is Some,
        ensures
            final(self)@ == old(self)@,
            final(world).wf(),
            final(world).spec_id() == old(world).spec_id(),
            final(world)@ == triggered(old(self)@, old(world)@)->Some_0,
    {
        let items = self.items();
        run_changes(self.updates_ref(), &items, world);
        world.event_inc();
    }

    /// Triggers the event where its condition holds; tells whether it did.
    pub fn perform(&mut self, world: &mut World) -> (r: bool)
        requires
            old(world).wf(),
            condition_value(old(self)@.condition, old(world)@) is Ok,
            condition_value(old(self)@.condition, old(world)@)->Ok_0 ==> triggered(old(self)@, old(world)@) is Some,
        ensures
            final(self)@ == old(self)@,
            final(world).wf(),
            final(world).spec_id() == old(world).spec_id(),
            r == condition_value(old(self)@.condition, old(world)@)->Ok_0,
            final(world)@ == (if r { triggered(old(self)@, old(world)@)->Some_0 } else { old(world)@ }),
    {
        if self.can_be_triggered(world) {
            self.trigger(world);
            true
        } else {
            false
        }
    }

    /// Where the event takes a character, for a move to a scene that is on
    /// the map: the character, the scene, and the scene's place; none for
    /// other events.
    pub fn geo_location(&self, world: &World) -> (r: Option<(String, Option<String>, GeoLocation)>)
        requires
            world.wf(),
            self@.data matches EventDataView::Move { scene, .. } ==> world@.scenes.contains_key(scene),
        ensures
            match self@.data {
                EventDataView::Move { character, scene } => match world@.scenes[scene].location {
                    Some(p) => r matches Some((c, s, g)) && c@ == character && opt_text(s) == Some(scene) && g@ == p,
                    None => r is None,
                },
                _ => r is None,
            },
    {
        match self {
            Event::Move(e) => match world.scene(&e.data.scene) {
                Some(sc) => match sc.geo_location() {
                    Some(loc) => Some((e.data.character.clone(), Some(sc.name().to_owned()), loc)),
                    None => None,
                },
                None => None,
            },
            _ => None,
        }
    }

    /// Makes the event's changes and counts the event where all of them go
    /// through; tells whether they did. Where they do not, the world stays as
    /// it was.
    pub fn try_trigger(&mut self, world: &mut World) -> (r: bool)
        requires
            old(world).wf(),
        ensures
            final(self)@ == old(self)@,
            final(world).wf(),
            final(world).spec_id() == old(world).spec_id(),
            r == triggered(old(self)@, old(world)@) is Some,
            final(world)@ == (if r { triggered(old(self)@, old(world)@)->Some_0 } else { old(world)@ }),
    {
        let items = self.items();
        let mut copy = world.duplicate();
        if !try_run_changes(self.updates_ref(), &items, &mut copy) {
            return false;
        }
        if copy.event_count() == usize::MAX {
            return false;
        }
        copy.event_inc();
        *world = copy;
        true
    }
}

// ------------------------------------------------------------ storing

/// The document that [`Event::dump`] writes: the fields of the data and the
/// event's name, ordered by key.
pub open spec fn event_json(e: EventView) -> JsonView {
    match e.data {
        EventDataView::Pick { character, item } => JsonView::Object(
            seq![
                ("character"@, JsonView::Str(character)),
                ("item"@, JsonView::Str(item)),
                ("name"@, JsonView::Str(e.name)),
            ],
        ),
        EventDataView::Give { from_character, to_character, item } => JsonView::Object(
            seq![
                ("from_character"@, JsonView::Str(from_character)),
                ("item"@, JsonView::Str(item)),
                ("name"@, JsonView::Str(e.name)),
                ("to_character"@, JsonView::Str(to_character)),
            ],
        ),
        EventDataView::UseItem { character, item } => JsonView::Object(
            seq![
                ("character"@, JsonView::Str(character)),
                ("item"@, JsonView::Str(item)),
                ("name"@, JsonView::Str(e.name)),
            ],
        ),
        EventDataView::Move { character, scene } => JsonView::Object(
            seq![
                ("character"@, JsonView::Str(character)),
                ("name"@, JsonView::Str(e.name)),
                ("scene"@, JsonView::Str(scene)),
            ],
        ),
        EventDataView::Void { character, item } => JsonView::Object(
            seq![
                ("character"@, JsonView::Str(character)),
                ("item"@, match item {
                    Some(i) => JsonView::Str(i),
                    None => JsonView::Null,
                }),
                ("name"@, JsonView::Str(e.name)),
            ],
        ),
        EventDataView::Talk { character, scene, dialog } => JsonView::Object(
            seq![
                ("character"@, JsonView::Str(character)),
                ("dialog"@, JsonView::Number(dialog as u64)),
                ("name"@, JsonView::Str(e.name)),
                ("scene"@, JsonView::Str(scene)),
            ],
        ),
    }
}

/// The fields of what an event writes have distinct names.
pub proof fn lemma_event_json_keys(e: EventView)
    ensures
        event_json(e) is Object,
        keys_distinct(event_json(e)->Object_0),
{
    reveal_strlit("character");
    reveal_strlit("item");
    reveal_strlit("name");
    reveal_strlit("from_character");
    reveal_strlit("to_character");
    reveal_strlit("scene");
    reveal_strlit("dialog");
    let f = event_json(e)->Object_0;
    assert forall|i: int, j: int| 0 <= i < f.len() && 0 <= j < f.len() && i != j implies #[trigger] f[i].0
        != #[trigger] f[j].0 by {
        assert(f[i].0[0] != f[j].0[0]);
    }
}

// ------------------------------------------------------------ messages

/// The base of the identifiers of an event's messages in a world of the
/// story `world`.
pub open spec fn msg_base(world: Seq<char>, e: EventView) -> Seq<char> {
    match e.data {
        EventDataView::Pick { character, .. } => world + "-"@ + character + "_"@ + e.name,
        EventDataView::Give { from_character, to_character, item } => world + "-"@ + from_character + "_give_"@
            + item + "_to_"@ + to_character,
        EventDataView::UseItem { character, .. } => world + "-"@ + character + "_"@ + e.name,
        EventDataView::Move { character, .. } => world + "-"@ + character + "_"@ + e.name,
        EventDataView::Void { character, item } => world + "-"@ + character + "_"@ + e.name + "_"@ + match item {
            Some(i) => i,
            None => Seq::empty(),
        },
        EventDataView::Talk { character, scene, dialog } => world + "-"@ + scene + "_"@ + character + "_says-"@
            + decimal(dialog as nat),
    }
}

// ------------------------------------------------------------ ordering

/// What events are ordered by: the last event of any of their items, then
/// the greatest of their item names, the greatest of their character names,
/// and their name.
pub struct EventKey {
    pub last_event: usize,
    pub item: Seq<char>,
    pub character: Seq<char>,
    pub name: Seq<char>,
}

/// The last event of an item, 0 where it has none or there is no such item.
pub open spec fn last_event_of(w: WorldView, item: Seq<char>) -> usize {
    if w.items.contains_key(item) {
        match w.items[item].last_event {
            Some(n) => n,
            None => 0,
        }
    } else {
        0
    }
}

/// The greatest last event of the items, 0 for none.
pub open spec fn max_last_event(w: WorldView, items: Seq<Seq<char>>) -> usize
    decreases items.len(),
{
    if items.len() == 0 {
        0
    } else {
        let m = max_last_event(w, items.drop_last());
        let n = last_event_of(w, items.last());
        if m < n {
            n
        } else {
            m
        }
    }
}

/// The greatest of the texts in the order of texts, the empty text for none.
pub open spec fn max_text(s: Seq<Seq<char>>) -> Seq<char>
    decreases s.len(),
{
    if s.len() == 0 {
        Seq::empty()
    } else {
        let m = max_text(s.drop_last());
        if text_lt(m, s.last()) {
            s.last()
        } else {
            m
        }
    }
}

/// The key by which an event is ordered in a world.
pub open spec fn sort_key(e: EventView, w: WorldView) -> EventKey {
    EventKey {
        last_event: max_last_event(w, event_items(e.data)),
        item: max_text(event_items(e.data)),
        character: max_text(event_characters(e.data)),
        name: e.name,
    }
}

/// `a` comes before `b`: by last event, then item, character and name.
pub open spec fn key_lt(a: EventKey, b: EventKey) -> bool {
    if a.last_event != b.last_event {
        a.last_event < b.last_event
    } else if a.item != b.item {
        text_lt(a.item, b.item)
    } else if a.character != b.character {
        text_lt(a.character, b.character)
    } else {
        text_lt(a.name, b.name)
    }
}

fn max_last_event_exec(world: &World, items: &Vec<String>) -> (r: usize)
    requires
        world.wf(),
    ensures
        r == max_last_event(world@, texts(items@)),
{
    let ghost iv = texts(items@);
    let mut m: usize = 0;
    let mut i: usize = 0;
    assert(iv.take(0) =~= Seq::<Seq<char>>::empty());
    while i < items.len()
        invariant
            world.wf(),
            iv == texts(items@),
            i <= items.len(),
            m == max_last_event(world@, iv.take(i as int)),
        decreases items.len() - i,
    {
        let n = match world.item(&items[i]) {
            Some(it) => match it.last_event() {
                Some(n) => n,
                None => 0,
            },
            None => 0,
        };
        proof {
            assert(iv.take(i + 1).drop_last() =~= iv.take(i as int));
            assert(iv.take(i + 1).last() == items@[i as int]@);
        }
        if m < n {
            m = n;
        }
        i += 1;
    }
    assert(iv.take(items.len() as int) =~= iv);
    m
}

fn max_text_exec(s: &Vec<String>) -> (r: String)
    ensures
        r@ == max_text(texts(s@)),
{
    let ghost sv = texts(s@);
    let mut m = String::new();
    let mut i: usize = 0;
    assert(sv.take(0) =~= Seq::<Seq<char>>::empty());
    while i < s.len()
        invariant
            sv == texts(s@),
            i <= s.len(),
            m@ == max_text(sv.take(i as int)),
        decreases s.len() - i,
    {
        proof {
            assert(sv.take(i + 1).drop_last() =~= sv.take(i as int));
            assert(sv.take(i + 1).last() == s@[i as int]@);
        }
        if text_less(m.as_str(), s[i].as_str()) {
            m = s[i].clone();
        }
        i += 1;
    }
    assert(sv.take(s.len() as int) =~= sv);
    m
}

impl Event {
    /// Writes the event as a JSON document.
    pub fn dump(&self) -> (r: Json)
        ensures
            r@ == event_json(self@),
    {
        let mut f: Vec<(String, Json)> = Vec::new();
        match self {
            Event::Pick(e) => {
                push_field(&mut f, "character", Json::Str(e.data.character.clone()));
                push_field(&mut f, "item", Json::Str(e.data.item.clone()));
                push_field(&mut f, "name", Json::Str(e.name.clone()));
            },
            Event::Give(e) => {
                push_field(&mut f, "from_character", Json::Str(e.data.from_character.clone()));
                push_field(&mut f, "item", Json::Str(e.data.item.clone()));
                push_field(&mut f, "name", Json::Str(e.name.clone()));
                push_field(&mut f, "to_character", Json::Str(e.data.to_character.clone()));
            },
            Event::UseItem(e) => {
                push_field(&mut f, "character", Json::Str(e.data.character.clone()));
                push_field(&mut f, "item", Json::Str(e.data.item.clone()));
                push_field(&mut f, "name", Json::Str(e.name.clone()));
            },
            Event::Move(e) => {
                push_field(&mut f, "character", Json::Str(e.data.character.clone()));
                push_field(&mut f, "name", Json::Str(e.name.clone()));
                push_field(&mut f, "scene", Json::Str(e.data.scene.clone()));
            },
            Event::Void(e) => {
                push_field(&mut f, "character", Json::Str(e.data.character.clone()));
                let item = match &e.data.item {
                    Some(i) => Json::Str(i.clone()),
                    None => Json::Null,
                };
                push_field(&mut f, "item", item);
                push_field(&mut f, "name", Json::Str(e.name.clone()));
            },
            Event::Talk(e) => {
                push_field(&mut f, "character", Json::Str(e.data.character.clone()));
                push_field(&mut f, "dialog", Json::Number(e.data.dialog as u64));
                push_field(&mut f, "name", Json::Str(e.name.clone()));
                push_field(&mut f, "scene", Json::Str(e.data.scene.clone()));
            },
        }
        let r = make_object(f);
        assert(r@->Object_0 =~= event_json(self@)->Object_0);
        r
    }

    /// Whether the value is what the event writes: an object with the same
    /// fields and values, in whatever order.
    pub fn matches(&self, value: &Json) -> (r: bool)
        ensures
            r == (value@ is Object && keys_distinct(value@->Object_0) && as_map(value@->Object_0) == as_map(
                event_json(self@)->Object_0,
            )),
    {
        let dump = self.dump();
        proof {
            lemma_event_json_keys(self@);
        }
        match (&dump, value) {
            (Json::Object(d), Json::Object(v)) => {
                assert(dump@->Object_0 =~= fields_view(d@));
                assert(value@->Object_0 =~= fields_view(v@));
                same_fields(d, v)
            },
            _ => false,
        }
    }

    /// The base of the identifiers of the event's messages.
    pub fn msg_base(&self, world: &World) -> (r: String)
        ensures
            r@ == msg_base(world@.name, self@),
    {
        let mut s = world.name().to_owned();
        s.append("-");
        match self {
            Event::Pick(e) => {
                s.append(e.data.character.as_str());
                s.append("_");
                s.append(e.name.as_str());
            },
            Event::Give(e) => {
                s.append(e.data.from_character.as_str());
                s.append("_give_");
                s.append(e.data.item.as_str());
                s.append("_to_");
                s.append(e.data.to_character.as_str());
            },
            Event::UseItem(e) => {
                s.append(e.data.character.as_str());
                s.append("_");
                s.append(e.name.as_str());
            },
            Event::Move(e) => {
                s.append(e.data.character.as_str());
                s.append("_");
                s.append(e.name.as_str());
            },
            Event::Void(e) => {
                s.append(e.data.character.as_str());
                s.append("_");
                s.append(e.name.as_str());
                s.append("_");
                match &e.data.item {
                    Some(i) => s.append(i.as_str()),
                    None => {
                        assert(s@ + Seq::<char>::empty() =~= s@);
                    },
                }
            },
            Event::Talk(e) => {
                s.append(e.data.scene.as_str());
                s.append("_");
                s.append(e.data.character.as_str());
                s.append("_says-");
                let d = decimal_string(e.data.dialog);
                s.append(d.as_str());
            },
        }
        s
    }

    /// The text shown to offer the event: its message `<base>-action`.
    pub fn action_text(&self, world: &World) -> (r: String)
        ensures
            r@ == msg_base(world@.name, self@) + "-action"@,
    {
        let mut s = self.msg_base(world);
        s.append("-action");
        world.get_message(s.as_str())
    }

    /// The text shown when the event happened: its message `<base>-success`.
    pub fn success_text(&self, world: &World) -> (r: String)
        ensures
            r@ == msg_base(world@.name, self@) + "-success"@,
    {
        let mut s = self.msg_base(world);
        s.append("-success");
        world.get_message(s.as_str())
    }

    /// The text shown when the event could not happen: its message
    /// `<base>-fail`.
    pub fn fail_text(&self, world: &World) -> (r: String)
        ensures
            r@ == msg_base(world@.name, self@) + "-fail"@,
    {
        let mut s = self.msg_base(world);
        s.append("-fail");
        world.get_message(s.as_str())
    }

    /// The key by which the event is ordered in the world.
    pub fn sort_key(&self, world: &World) -> (r: (usize, String, String, String))
        requires
            world.wf(),
        ensures
            (EventKey { last_event: r.0, item: r.1@, character: r.2@, name: r.3@ }) == sort_key(self@, world@),
    {
        let items = self.items();
        let characters = self.characters();
        let last = max_last_event_exec(world, &items);
        let item = max_text_exec(&items);
        let character = max_text_exec(&characters);
        let name = self.name().to_owned();
        (last, item, character, name)
    }
}

} // verus!
