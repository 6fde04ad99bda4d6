use vstd::prelude::*;

use crate::keyed::{keyed, keys_unique, lemma_keyed_index, Keyed};
use crate::world::{location_view, scene_views, GeoLocation, SceneView, World};
use crate::{Description, Named};

verus! {

broadcast use vstd::std_specs::vec::group_vec_axioms;

/// A scene as a player sees it: its name, its short text, its picture and
/// its place on the map, if any.
#[derive(Debug)]
pub struct Scene {
    pub code: String,
    pub short: String,
    pub image_url: String,
    pub geo_location: Option<GeoLocation>,
}

/// The picture of a scene.
pub open spec fn scene_image(name: Seq<char>) -> Seq<char> {
    "images/"@ + name + ".svg"@
}

/// The scene `s` of a world named `world_name` as a player sees it.
pub open spec fn scene_card(world_name: Seq<char>, s: SceneView, scene: Scene) -> bool {
    &&& scene.code@ == s.name
    &&& scene.short@ == world_name + "-"@ + s.name + "-short"@
    &&& scene.image_url@ == scene_image(s.name)
    &&& location_view(scene.geo_location) == s.location
}

/// The scenes of the world as a player sees them: one for each scene of the
/// world.
pub fn make_scenes(world: &World) -> (r: Vec<Scene>)
    requires
        world.wf(),
    ensures
        forall|i: int| 0 <= i < r.len() ==> world@.scenes.contains_key(#[trigger] r@[i].code@) && scene_card(
            world@.name,
            world@.scenes[r@[i].code@],
            r@[i],
        ),
        forall|name: Seq<char>| #[trigger] world@.scenes.contains_key(name) ==> exists|i: int|
            0 <= i < r.len() && #[trigger] r@[i].code@ == name,
        forall|i: int, j: int| 0 <= i < r.len() && 0 <= j < r.len() && i != j ==> r@[i].code@ != r@[j].code@,
{
    let scenes = world.scenes();
    let ghost sv = scene_views(scenes@);
    let mut r: Vec<Scene> = Vec::new();
    let mut i: usize = 0;
    while i < scenes.len()
        invariant
            world.wf(),
            i <= scenes.len(),
            sv == scene_views(scenes@),
            keys_unique(sv),
            keyed(sv) == world@.scenes,
            r.len() == i,
            forall|k: int| 0 <= k < i ==> #[trigger] r@[k].code@ == sv[k].name && scene_card(world@.name, sv[k], r@[k]),
        decreases scenes.len() - i,
    {
        let s = &scenes[i];
        let mut image = String::from_str("images/");
        image.append(s.name());
        image.append(".svg");
        let card = Scene {
            code: s.name().to_owned(),
            short: s.short(world),
            image_url: image,
            geo_location: s.geo_location(),
        };
        assert(s@ == sv[i as int]);
        r.push(card);
        i += 1;
    }
    proof {
        assert forall|k: int| 0 <= k < r.len() implies world@.scenes.contains_key(#[trigger] r@[k].code@)
            && scene_card(world@.name, world@.scenes[r@[k].code@], r@[k]) by {
            lemma_keyed_index(sv, k);
        }
        assert forall|name: Seq<char>| #[trigger] world@.scenes.contains_key(name) implies exists|k: int|
            0 <= k < r.len() && #[trigger] r@[k].code@ == name by {
            let k = choose|k: int| 0 <= k < sv.len() && #[trigger] sv[k].key() == name;
            assert(r@[k].code@ == name);
        }
        assert forall|a: int, b: int| 0 <= a < r.len() && 0 <= b < r.len() && a != b implies r@[a].code@
            != r@[b].code@ by {
            assert(sv[a].key() != sv[b].key());
        }
    }
    r
}

} // verus!
