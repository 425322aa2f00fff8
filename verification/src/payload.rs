//! The bodies of the requests that have one.

use vstd::prelude::*;

use serde_json::Value;

use crate::images::{
    law_family_is_the_core_of_the_image, law_resolved_family_is_clean, opt_text,
    resolve_image_family, resolved_family, DEFAULT_IMAGE_FAMILY,
};
use crate::json::{
    json_array, json_number, json_object, json_set, json_string, json_text, json_view, json_views,
    json_write, JsonView,
};
use crate::text::{is_blank, is_white_space};

verus! {

/// What is asked for in a launch, but for the region.
pub struct LaunchOrder {
    pub gpu: Seq<char>,
    pub ssh_key: Seq<char>,
    pub name: Option<Seq<char>>,
    pub filesystem: Option<Seq<char>>,
    pub image: Option<Seq<char>>,
}

/// What the arguments of a launch ask for.
pub open spec fn launch_order(
    gpu: &str,
    ssh_key: &str,
    name: Option<&str>,
    filesystem: Option<&str>,
    image: Option<&str>,
) -> LaunchOrder {
    LaunchOrder {
        gpu: gpu@,
        ssh_key: ssh_key@,
        name: opt_text(name),
        filesystem: opt_text(filesystem),
        image: opt_text(image),
    }
}

/// `entries`, with one more where `item` is given.
pub open spec fn with_entry(
    entries: Map<Seq<char>, JsonView>,
    key: Seq<char>,
    item: Option<JsonView>,
) -> Map<Seq<char>, JsonView> {
    match item {
        Some(value) => entries.insert(key, value),
        None => entries,
    }
}

/// The list of one text.
pub open spec fn one_text(text: Seq<char>) -> JsonView {
    JsonView::Array(seq![JsonView::Text(text)])
}

/// The entries of the body that launches one instance in `region`.
pub open spec fn launch_entries(order: LaunchOrder, region: Seq<char>) -> Map<Seq<char>, JsonView> {
    let base = map![
        "region_name"@ => JsonView::Text(region),
        "instance_type_name"@ => JsonView::Text(order.gpu),
        "ssh_key_names"@ => one_text(order.ssh_key),
        "quantity"@ => JsonView::Integer(1),
        "image"@ => JsonView::Object(
            map!["family"@ => JsonView::Text(resolved_family(order.image))],
        ),
    ];
    let named = with_entry(
        base,
        "name"@,
        match order.name {
            Some(name) => Some(JsonView::Text(name)),
            None => None,
        },
    );
    with_entry(
        named,
        "file_system_names"@,
        match order.filesystem {
            Some(filesystem) => Some(one_text(filesystem)),
            None => None,
        },
    )
}

/// The entries of the body that terminates an instance.
pub open spec fn terminate_entries(instance_id: Seq<char>) -> Map<Seq<char>, JsonView> {
    map!["instance_ids"@ => one_text(instance_id)]
}

/// The entries of the body that creates a filesystem.
pub open spec fn filesystem_entries(name: Seq<char>, region: Seq<char>) -> Map<
    Seq<char>,
    JsonView,
> {
    map!["name"@ => JsonView::Text(name), "region_name"@ => JsonView::Text(region)]
}

/// The list of one text.
fn list_of_one(text: &str) -> (value: Value)
    ensures
        json_view(value) == one_text(text@),
{
    let mut items: Vec<Value> = Vec::new();
    items.push(json_string(text));
    assert(json_views(items@) =~= seq![JsonView::Text(text@)]);
    json_array(items)
}

/// The body that launches one instance in `region_name`. Without an image it asks for the default
/// family.
pub fn launch_body(
    gpu: &str,
    ssh_key: &str,
    name: Option<&str>,
    region_name: &str,
    filesystem: Option<&str>,
    image: Option<&str>,
) -> (body: String)
    ensures
        body@ == json_text(
            JsonView::Object(
                launch_entries(
                    launch_order(gpu, ssh_key, name, filesystem, image),
                    region_name@,
                ),
            ),
        ),
{
    let image_family = resolve_image_family(image);
    let mut payload = json_object();
    json_set(&mut payload, "region_name", json_string(region_name));
    json_set(&mut payload, "instance_type_name", json_string(gpu));
    json_set(&mut payload, "ssh_key_names", list_of_one(ssh_key));
    json_set(&mut payload, "quantity", json_number(1));
    let mut chosen = json_object();
    json_set(&mut chosen, "family", json_string(image_family));
    json_set(&mut payload, "image", chosen);
    if let Some(instance_name) = name {
        json_set(&mut payload, "name", json_string(instance_name));
    }
    if let Some(fs_name) = filesystem {
        json_set(&mut payload, "file_system_names", list_of_one(fs_name));
    }
    json_write(&payload)
}

/// The body that terminates an instance.
pub fn terminate_body(instance_id: &str) -> (body: String)
    ensures
        body@ == json_text(JsonView::Object(terminate_entries(instance_id@))),
{
    let mut payload = json_object();
    json_set(&mut payload, "instance_ids", list_of_one(instance_id));
    json_write(&payload)
}

/// The body that creates a filesystem.
pub fn filesystem_body(name: &str, region: &str) -> (body: String)
    ensures
        body@ == json_text(JsonView::Object(filesystem_entries(name@, region@))),
{
    let mut payload = json_object();
    json_set(&mut payload, "name", json_string(name));
    json_set(&mut payload, "region_name", json_string(region));
    json_write(&payload)
}

/// The body of a launch says what was ordered, entry by entry: one instance of the type, in the
/// region, with the key and the family that the image stands for, and a name and a filesystem
/// exactly where they are given.
pub proof fn law_launch_body_says_what_was_ordered(order: LaunchOrder, region: Seq<char>)
    ensures
        ({
            let entries = launch_entries(order, region);
            &&& entries["region_name"@] == JsonView::Text(region)
            &&& entries["instance_type_name"@] == JsonView::Text(order.gpu)
            &&& entries["ssh_key_names"@] == one_text(order.ssh_key)
            &&& entries["quantity"@] == JsonView::Integer(1)
            &&& entries["image"@] == JsonView::Object(
                map!["family"@ => JsonView::Text(resolved_family(order.image))],
            )
            &&& entries.dom().contains("name"@) == (order.name is Some)
            &&& order.name is Some ==> entries["name"@] == JsonView::Text(order.name->0)
            &&& entries.dom().contains("file_system_names"@) == (order.filesystem is Some)
            &&& order.filesystem is Some ==> entries["file_system_names"@] == one_text(
                order.filesystem->0,
            )
            &&& entries.dom().subset_of(
                set![
                    "region_name"@,
                    "instance_type_name"@,
                    "ssh_key_names"@,
                    "quantity"@,
                    "image"@,
                    "name"@,
                    "file_system_names"@,
                ],
            )
            &&& set![
                "region_name"@,
                "instance_type_name"@,
                "ssh_key_names"@,
                "quantity"@,
                "image"@,
            ].subset_of(entries.dom())
        }),
{
    reveal_strlit("region_name");
    reveal_strlit("instance_type_name");
    reveal_strlit("ssh_key_names");
    reveal_strlit("quantity");
    reveal_strlit("image");
    reveal_strlit("name");
    reveal_strlit("file_system_names");
    assert("region_name"@.len() == 11);
    assert("instance_type_name"@.len() == 18);
    assert("ssh_key_names"@.len() == 13);
    assert("quantity"@.len() == 8);
    assert("image"@.len() == 5);
    assert("name"@.len() == 4);
    assert("file_system_names"@.len() == 17);
}

/// The bodies of the other requests say what was asked for, and nothing else.
pub proof fn law_other_bodies_say_what_was_asked(
    instance_id: Seq<char>,
    name: Seq<char>,
    region: Seq<char>,
)
    ensures
        terminate_entries(instance_id)["instance_ids"@] == one_text(instance_id),
        terminate_entries(instance_id).dom() == set!["instance_ids"@],
        filesystem_entries(name, region)["name"@] == JsonView::Text(name),
        filesystem_entries(name, region)["region_name"@] == JsonView::Text(region),
        filesystem_entries(name, region).dom() == set!["name"@, "region_name"@],
{
    reveal_strlit("name");
    reveal_strlit("region_name");
    assert("name"@.len() == 4);
    assert("region_name"@.len() == 11);
    assert(terminate_entries(instance_id).dom() =~= set!["instance_ids"@]);
    assert(filesystem_entries(name, region).dom() =~= set!["name"@, "region_name"@]);
}

/// Whatever image is asked for, the family in the body of a launch is not blank.
pub proof fn law_launch_body_has_a_family(order: LaunchOrder, region: Seq<char>)
    ensures
        launch_entries(order, region)["image"@] == JsonView::Object(
            map!["family"@ => JsonView::Text(resolved_family(order.image))],
        ),
        resolved_family(order.image).len() > 0,
        order.image is None ==> resolved_family(order.image) == DEFAULT_IMAGE_FAMILY@,
{
    law_launch_body_says_what_was_ordered(order, region);
    law_resolved_family_is_clean(order.image);
}

/// The body of a launch says what the arguments ask for, entry by entry and each on its own: one
/// instance of the type, in the region, with just the SSH key, from the family that the image
/// resolves to; with the name where one is given, and with just the filesystem where one is given,
/// whatever the other arguments are. It says nothing else.
pub proof fn law_launch_body_carries_every_argument(
    gpu: &str,
    ssh_key: &str,
    name: Option<&str>,
    region_name: &str,
    filesystem: Option<&str>,
    image: Option<&str>,
)
    ensures
        ({
            let entries = launch_entries(
                launch_order(gpu, ssh_key, name, filesystem, image),
                region_name@,
            );
            &&& entries.dom().contains("region_name"@)
            &&& entries["region_name"@] == JsonView::Text(region_name@)
            &&& entries.dom().contains("instance_type_name"@)
            &&& entries["instance_type_name"@] == JsonView::Text(gpu@)
            &&& entries.dom().contains("ssh_key_names"@)
            &&& entries["ssh_key_names"@] matches JsonView::Array(items) && items.len() == 1
                && items[0] == JsonView::Text(ssh_key@)
            &&& entries.dom().contains("quantity"@)
            &&& entries["quantity"@] == JsonView::Integer(1)
            &&& entries.dom().contains("image"@)
            &&& entries["image"@] is Object
            &&& forall|key: Seq<char>| #[trigger]
                entries["image"@]->Object_0.dom().contains(key) <==> key == "family"@
            &&& entries["image"@]->Object_0["family"@] is Text
            &&& ({
                let family = entries["image"@]->Object_0["family"@]->Text_0;
                &&& family.len() > 0
                &&& !is_white_space(family[0])
                &&& !is_white_space(family[family.len() - 1])
                &&& image is None ==> family == "lambda-stack-24-04"@
                &&& image is Some && is_blank(image->0@) ==> family == "lambda-stack-24-04"@
                &&& image is Some && !is_blank(image->0@) ==> exists|
                    front: Seq<char>,
                    back: Seq<char>,
                |
                    #![trigger is_blank(front), is_blank(back)]
                    is_blank(front) && is_blank(back) && image->0@ == front + family + back
            })
            &&& entries.dom().contains("name"@) <==> name is Some
            &&& name is Some ==> entries["name"@] == JsonView::Text(name->0@)
            &&& entries.dom().contains("file_system_names"@) <==> filesystem is Some
            &&& filesystem is Some ==> (entries["file_system_names"@] matches JsonView::Array(items)
                && items.len() == 1 && items[0] == JsonView::Text(filesystem->0@))
            &&& forall|key: Seq<char>| #[trigger]
                entries.dom().contains(key) ==> key == "region_name"@ || key
                    == "instance_type_name"@ || key == "ssh_key_names"@ || key == "quantity"@ || key
                    == "image"@ || key == "name"@ || key == "file_system_names"@
        }),
{
    let order = launch_order(gpu, ssh_key, name, filesystem, image);
    let entries = launch_entries(order, region_name@);
    law_launch_body_says_what_was_ordered(order, region_name@);
    law_family_is_the_core_of_the_image(image);
    let family = resolved_family(opt_text(image));
    let chosen = map!["family"@ => JsonView::Text(family)];
    assert(entries["image"@] == JsonView::Object(chosen));
    assert(set![
        "region_name"@,
        "instance_type_name"@,
        "ssh_key_names"@,
        "quantity"@,
        "image"@,
    ].contains("region_name"@));
}

/// The body of a termination names just the instance, and says nothing else.
pub proof fn law_terminate_body_names_the_instance(instance_id: &str)
    ensures
        ({
            let entries = terminate_entries(instance_id@);
            &&& forall|key: Seq<char>| #[trigger]
                entries.dom().contains(key) <==> key == "instance_ids"@
            &&& entries["instance_ids"@] matches JsonView::Array(items) && items.len() == 1
                && items[0] == JsonView::Text(instance_id@)
        }),
{
}

/// The body of a new filesystem has its name and its region, and says nothing else.
pub proof fn law_filesystem_body_has_name_and_region(name: &str, region: &str)
    ensures
        ({
            let entries = filesystem_entries(name@, region@);
            &&& forall|key: Seq<char>| #[trigger]
                entries.dom().contains(key) <==> key == "name"@ || key == "region_name"@
            &&& entries["name"@] == JsonView::Text(name@)
            &&& entries["region_name"@] == JsonView::Text(region@)
        }),
{
    law_other_bodies_say_what_was_asked(name@, name@, region@);
}

/// Two launches whose arguments differ have different bodies, and so have two terminations and two
/// new filesystems: no argument is lost.
pub proof fn law_bodies_tell_arguments_apart(
    order: LaunchOrder,
    other: LaunchOrder,
    region: Seq<char>,
    elsewhere: Seq<char>,
    id: Seq<char>,
    other_id: Seq<char>,
)
    ensures
        launch_entries(order, region) == launch_entries(other, elsewhere) ==> order.gpu == other.gpu
            && order.ssh_key == other.ssh_key && order.name == other.name && order.filesystem
            == other.filesystem && resolved_family(order.image) == resolved_family(other.image)
            && region == elsewhere,
        terminate_entries(id) == terminate_entries(other_id) ==> id == other_id,
        filesystem_entries(id, region) == filesystem_entries(other_id, elsewhere) ==> id == other_id
            && region == elsewhere,
{
    law_launch_body_says_what_was_ordered(order, region);
    law_launch_body_says_what_was_ordered(other, elsewhere);
    law_other_bodies_say_what_was_asked(id, id, region);
    law_other_bodies_say_what_was_asked(other_id, other_id, elsewhere);
    lemma_one_text_holds_its_text(order.ssh_key);
    lemma_one_text_holds_its_text(other.ssh_key);
    lemma_one_text_holds_its_text(id);
    lemma_one_text_holds_its_text(other_id);
    if order.filesystem is Some {
        lemma_one_text_holds_its_text(order.filesystem->0);
    }
    if other.filesystem is Some {
        lemma_one_text_holds_its_text(other.filesystem->0);
    }
    let one = launch_entries(order, region);
    let two = launch_entries(other, elsewhere);
    if one == two {
        let a = map!["family"@ => JsonView::Text(resolved_family(order.image))];
        let b = map!["family"@ => JsonView::Text(resolved_family(other.image))];
        assert(one["image"@] == JsonView::Object(a) && two["image"@] == JsonView::Object(b));
        assert(a["family"@] == b["family"@]);
    }
}

proof fn lemma_one_text_holds_its_text(text: Seq<char>)
    ensures
        one_text(text) is Array,
        one_text(text)->Array_0.len() == 1,
        one_text(text)->Array_0[0] == JsonView::Text(text),
{
}

} // verus!
