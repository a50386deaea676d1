//! Documentation lookup for `K`: which class (and member) the editor's
//! help opens, read from the language server's hover text.

use crate::chars::{chars_of, concat, slice_of, trim, trim_exec};
use crate::search::{word_end, word_start};
use crate::text::{
    contains, contains_exec, ends_with, find, find_exec, index_of, index_of_exec, lemma_index_of_from,
    lines_exec, lines_of, starts_with, texts_view, word_prefix, word_prefix_from,
};
use crate::unicode::{char_is_uppercase, char_to_uppercase, is_uppercase, to_uppercase};
use vstd::prelude::*;

verus! {

/// What part of a class the help page is opened at.
#[derive(Clone, Copy, Debug, PartialEq, Eq)]
pub enum HelpMemberType {
    Class,
    Method,
    Property,
    Signal,
    Constant,
}

/// A help page: class, member, kind of member.
pub struct HelpQueryOf<T> {
    pub class_name: T,
    pub member_name: Option<T>,
    pub member_type: HelpMemberType,
}

pub type HelpQuery = HelpQueryOf<Vec<char>>;

pub type HelpQueryView = HelpQueryOf<Seq<char>>;

pub open spec fn query_view(q: HelpQuery) -> HelpQueryView {
    HelpQueryOf {
        class_name: q.class_name@,
        member_name: match q.member_name {
            Some(m) => Some(m@),
            None => None,
        },
        member_type: q.member_type,
    }
}

pub open spec fn opt_query_view(q: Option<HelpQuery>) -> Option<HelpQueryView> {
    match q {
        Some(q) => Some(query_view(q)),
        None => None,
    }
}

/// `:help`: the plugin's own help page.
pub fn cmd_help() -> (q: HelpQuery)
    ensures
        query_view(q) == (HelpQueryOf { class_name: "GodotNeovim"@, member_name: None, member_type: HelpMemberType::Class }),
{
    HelpQueryOf { class_name: chars_of("GodotNeovim"), member_name: None, member_type: HelpMemberType::Class }
}

// ---------------------------------------------------------------------
// Hover text
// ---------------------------------------------------------------------

/// The contents of a hover answer: one text, several, or markup.
pub enum HoverTextOf<T> {
    Scalar(T),
    Array(Vec<T>),
    Markup(T),
}

/// Texts joined with line feeds.
pub open spec fn joined(v: Seq<Seq<char>>) -> Seq<char>
    decreases v.len(),
{
    if v.len() == 0 {
        Seq::empty()
    } else if v.len() == 1 {
        v[0]
    } else {
        joined(v.drop_last()) + seq!['\n'] + v.last()
    }
}

/// The hover's text: several texts are joined with line feeds.
pub open spec fn hover_text_spec(h: HoverTextOf<Vec<char>>) -> Seq<char> {
    match h {
        HoverTextOf::Scalar(s) => s@,
        HoverTextOf::Array(v) => joined(texts_view(v@)),
        HoverTextOf::Markup(s) => s@,
    }
}

pub fn hover_text(h: &HoverTextOf<Vec<char>>) -> (r: Vec<char>)
    ensures
        r@ == hover_text_spec(*h),
{
    match h {
        HoverTextOf::Scalar(s) => slice_of(s, 0, s.len()),
        HoverTextOf::Markup(s) => slice_of(s, 0, s.len()),
        HoverTextOf::Array(v) => {
            let mut out: Vec<char> = Vec::new();
            let mut i: usize = 0;
            while i < v.len()
                invariant
                    i <= v@.len(),
                    out@ == joined(texts_view(v@.subrange(0, i as int))),
                decreases v.len() - i,
            {
                if i > 0 {
                    out.push('\n');
                }
                out = concat(&out, &v[i]);
                i = i + 1;
                proof {
                    let w = texts_view(v@.subrange(0, i as int));
                    assert(w.drop_last() =~= texts_view(v@.subrange(0, i - 1)));
                    if i == 1 {
                        assert(texts_view(v@.subrange(0, 0)) =~= Seq::<Seq<char>>::empty());
                        assert(out@ =~= w[0]);
                    } else {
                        assert(out@ =~= joined(w.drop_last()) + seq!['\n'] + w.last());
                    }
                }
            }
            assert(v@.subrange(0, i as int) =~= v@);
            out
        },
    }
}

// ---------------------------------------------------------------------
// Patterns of the hover text
// ---------------------------------------------------------------------

/// `kw ClassName.member` on a line (trimmed): the class and member names
/// (word characters up to the first non-word character), when both are
/// non-empty.
pub open spec fn dotted_after(line: Seq<char>, kw: Seq<char>) -> Option<(Seq<char>, Seq<char>)> {
    let t = trim(line);
    if starts_with(t, kw) {
        let rest = t.subrange(kw.len() as int, t.len() as int);
        match index_of(rest, '.') {
            None => None,
            Some(i) => {
                let c = word_prefix(rest.subrange(0, i));
                let m = word_prefix(rest.subrange(i + 1, rest.len() as int));
                if c.len() > 0 && m.len() > 0 {
                    Some((c, m))
                } else {
                    None
                }
            },
        }
    } else {
        None
    }
}

/// The first line holding `kw ClassName.member`.
pub open spec fn first_dotted(ls: Seq<Seq<char>>, kw: Seq<char>) -> Option<(Seq<char>, Seq<char>)>
    decreases ls.len(),
{
    if ls.len() == 0 {
        None
    } else {
        match dotted_after(ls[0], kw) {
            Some(p) => Some(p),
            None => first_dotted(ls.drop_first(), kw),
        }
    }
}

/// The first line holding `var Class.member` (a property) or
/// `const Class.MEMBER` (a constant); `var` is tried first on each line.
pub open spec fn class_member_in(ls: Seq<Seq<char>>) -> Option<(HelpMemberType, Seq<char>, Seq<char>)>
    decreases ls.len(),
{
    if ls.len() == 0 {
        None
    } else {
        match dotted_after(ls[0], "var "@) {
            Some((c, m)) => Some((HelpMemberType::Property, c, m)),
            None => match dotted_after(ls[0], "const "@) {
                Some((c, m)) => Some((HelpMemberType::Constant, c, m)),
                None => class_member_in(ls.drop_first()),
            },
        }
    }
}

fn dotted_after_exec(line: &Vec<char>, kw: &str) -> (r: Option<(Vec<char>, Vec<char>)>)
    ensures
        r matches Some(p) ==> dotted_after(line@, kw@) == Some((p.0@, p.1@)),
        r is None ==> dotted_after(line@, kw@) is None,
{
    let t = trim_exec(line);
    let k = chars_of(kw);
    if !crate::chars::starts_with_str(&t, kw) {
        return None;
    }
    let rest = slice_of(&t, k.len(), t.len());
    match index_of_exec(&rest, '.') {
        None => None,
        Some(i) => {
            proof {
                lemma_index_of_from(rest@, '.', 0);
            }
            let head = slice_of(&rest, 0, i);
            let c = word_prefix_from(&head, 0);
            let m = word_prefix_from(&rest, i + 1);
            assert(head@.subrange(0, head@.len() as int) =~= head@);
            if c.len() > 0 && m.len() > 0 {
                Some((c, m))
            } else {
                None
            }
        },
    }
}

fn first_dotted_exec(ls: &Vec<Vec<char>>, kw: &str) -> (r: Option<(Vec<char>, Vec<char>)>)
    ensures
        r matches Some(p) ==> first_dotted(texts_view(ls@), kw@) == Some((p.0@, p.1@)),
        r is None ==> first_dotted(texts_view(ls@), kw@) is None,
{
    let mut i: usize = 0;
    assert(texts_view(ls@).subrange(0, ls@.len() as int) =~= texts_view(ls@));
    while i < ls.len()
        invariant
            i <= ls@.len(),
            first_dotted(texts_view(ls@), kw@) == first_dotted(texts_view(ls@).subrange(i as int, ls@.len() as int), kw@),
        decreases ls.len() - i,
    {
        let ghost rest = texts_view(ls@).subrange(i as int, ls@.len() as int);
        assert(rest[0] == ls@[i as int]@);
        assert(rest.drop_first() =~= texts_view(ls@).subrange(i + 1, ls@.len() as int));
        match dotted_after_exec(&ls[i], kw) {
            Some(p) => {
                return Some(p);
            },
            None => {},
        }
        i = i + 1;
    }
    assert(texts_view(ls@).subrange(i as int, ls@.len() as int) =~= Seq::<Seq<char>>::empty());
    None
}

/// `func Class.method(` in the hover text.
pub fn match_func_class_method(content: &Vec<char>) -> (r: Option<(Vec<char>, Vec<char>)>)
    ensures
        r matches Some(p) ==> first_dotted(lines_of(content@), "func "@) == Some((p.0@, p.1@)),
        r is None ==> first_dotted(lines_of(content@), "func "@) is None,
{
    first_dotted_exec(&lines_exec(content), "func ")
}

/// `signal Class.name(` in the hover text.
pub fn match_signal_class_member(content: &Vec<char>) -> (r: Option<(Vec<char>, Vec<char>)>)
    ensures
        r matches Some(p) ==> first_dotted(lines_of(content@), "signal "@) == Some((p.0@, p.1@)),
        r is None ==> first_dotted(lines_of(content@), "signal "@) is None,
{
    first_dotted_exec(&lines_exec(content), "signal ")
}

/// `var Class.member` or `const Class.MEMBER` in the hover text.
pub fn match_class_member(content: &Vec<char>) -> (r: Option<(HelpMemberType, Vec<char>, Vec<char>)>)
    ensures
        r matches Some(p) ==> class_member_in(lines_of(content@)) == Some((p.0, p.1@, p.2@)),
        r is None ==> class_member_in(lines_of(content@)) is None,
{
    let ls = lines_exec(content);
    let mut i: usize = 0;
    assert(texts_view(ls@).subrange(0, ls@.len() as int) =~= texts_view(ls@));
    while i < ls.len()
        invariant
            i <= ls@.len(),
            texts_view(ls@) == lines_of(content@),
            class_member_in(texts_view(ls@)) == class_member_in(texts_view(ls@).subrange(i as int, ls@.len() as int)),
        decreases ls.len() - i,
    {
        let ghost rest = texts_view(ls@).subrange(i as int, ls@.len() as int);
        assert(rest[0] == ls@[i as int]@);
        assert(rest.drop_first() =~= texts_view(ls@).subrange(i + 1, ls@.len() as int));
        match dotted_after_exec(&ls[i], "var ") {
            Some((c, m)) => {
                return Some((HelpMemberType::Property, c, m));
            },
            None => {},
        }
        match dotted_after_exec(&ls[i], "const ") {
            Some((c, m)) => {
                return Some((HelpMemberType::Constant, c, m));
            },
            None => {},
        }
        i = i + 1;
    }
    assert(texts_view(ls@).subrange(i as int, ls@.len() as int) =~= Seq::<Seq<char>>::empty());
    None
}

// ---------------------------------------------------------------------
// Class from a file name
// ---------------------------------------------------------------------

/// A word with its first character in uppercase (every character its
/// uppercase mapping yields).
pub open spec fn capitalized(w: Seq<char>) -> Seq<char> {
    if w.len() == 0 {
        Seq::empty()
    } else {
        char_to_uppercase(w[0]) + w.subrange(1, w.len() as int)
    }
}

/// `snake_case` to `PascalCase`: each `_`-separated word capitalized,
/// the underscores dropped.
pub open spec fn pascal_case(s: Seq<char>) -> Seq<char>
    decreases s.len(),
{
    match index_of(s, '_') {
        None => capitalized(s),
        Some(i) => if 0 <= i < s.len() {
            capitalized(s.subrange(0, i)) + pascal_case(s.subrange(i + 1, s.len() as int))
        } else {
            Seq::empty()
        },
    }
}

fn capitalized_exec(w: &Vec<char>) -> (r: Vec<char>)
    ensures
        r@ == capitalized(w@),
{
    if w.len() == 0 {
        return Vec::new();
    }
    let up = to_uppercase(w[0]);
    concat(&up, &slice_of(w, 1, w.len()))
}

/// Convert `snake_case` to `PascalCase`.
pub fn to_pascal_case(s: &Vec<char>) -> (r: Vec<char>)
    ensures
        r@ == pascal_case(s@),
{
    let mut out: Vec<char> = Vec::new();
    let mut rest = slice_of(s, 0, s.len());
    assert(rest@ =~= s@);
    loop
        invariant
            pascal_case(s@) == out@ + pascal_case(rest@),
        decreases rest.len(),
    {
        match index_of_exec(&rest, '_') {
            None => {
                let c = capitalized_exec(&rest);
                return concat(&out, &c);
            },
            Some(i) => {
                proof {
                    lemma_index_of_from(rest@, '_', 0);
                }
                let c = capitalized_exec(&slice_of(&rest, 0, i));
                let tail = slice_of(&rest, i + 1, rest.len());
                assert(out@ + pascal_case(rest@) =~= (out@ + c@) + pascal_case(tail@));
                out = concat(&out, &c);
                rest = tail;
            },
        }
    }
}

/// The part of `s` after its last `c` (all of `s` when there is none).
pub open spec fn after_last(s: Seq<char>, c: char) -> Seq<char>
    decreases s.len(),
{
    if s.len() == 0 {
        s
    } else if s.last() == c {
        Seq::empty()
    } else {
        after_last(s.drop_last(), c).push(s.last())
    }
}

pub(crate) fn after_last_exec(v: &Vec<char>, c: char) -> (r: Vec<char>)
    ensures
        r@ == after_last(v@, c),
{
    let mut i = v.len();
    assert(v@.subrange(0, v@.len() as int) =~= v@);
    assert(v@ + v@.subrange(v@.len() as int, v@.len() as int) =~= v@);
    while i > 0 && v[i - 1] != c
        invariant
            i <= v@.len(),
            after_last(v@, c) == after_last(v@.subrange(0, i as int), c) + v@.subrange(i as int, v@.len() as int),
        decreases i,
    {
        let ghost p = v@.subrange(0, i as int);
        assert(p.drop_last() =~= v@.subrange(0, i - 1));
        assert(after_last(p, c) == after_last(p.drop_last(), c).push(p.last()));
        assert(after_last(v@.subrange(0, i - 1), c).push(v@[i - 1]) + v@.subrange(i as int, v@.len() as int)
            =~= after_last(v@.subrange(0, i - 1), c) + v@.subrange(i - 1, v@.len() as int));
        i = i - 1;
    }
    proof {
        let p = v@.subrange(0, i as int);
        if i > 0 {
            assert(after_last(p, c) =~= Seq::<char>::empty());
        } else {
            assert(p =~= Seq::<char>::empty());
        }
        assert(Seq::<char>::empty() + v@.subrange(i as int, v@.len() as int) =~= v@.subrange(i as int, v@.len() as int));
    }
    slice_of(v, i, v.len())
}

/// The class named by a `Defined in [path/file.gd]` line: the file name
/// without `.gd`, in PascalCase, when not empty.
pub open spec fn defined_in_line(line: Seq<char>) -> Option<Seq<char>> {
    if !contains(line, "Defined in"@) {
        None
    } else {
        match index_of(line, '[') {
            None => None,
            Some(st) => match index_of(line.subrange(st, line.len() as int), ']') {
                None => None,
                Some(e) => {
                    let path = line.subrange(st + 1, st + e);
                    let name = after_last(path, '/');
                    if ends_with(name, ".gd"@) {
                        let cls = pascal_case(name.subrange(0, name.len() - 3));
                        if cls.len() > 0 { Some(cls) } else { None }
                    } else {
                        None
                    }
                },
            },
        }
    }
}

/// The first line that names a class this way.
pub open spec fn defined_in_lines(ls: Seq<Seq<char>>) -> Option<Seq<char>>
    decreases ls.len(),
{
    if ls.len() == 0 {
        None
    } else {
        match defined_in_line(ls[0]) {
            Some(c) => Some(c),
            None => defined_in_lines(ls.drop_first()),
        }
    }
}

/// Built-in classes looked for in the hover text, in this order.
pub open spec fn native_classes() -> Seq<Seq<char>> {
    seq![
        "Node"@,
        "Node2D"@,
        "Node3D"@,
        "Control"@,
        "Sprite2D"@,
        "Sprite3D"@,
        "Camera2D"@,
        "Camera3D"@,
        "CharacterBody2D"@,
        "CharacterBody3D"@,
        "RigidBody2D"@,
        "RigidBody3D"@,
        "Area2D"@,
        "Area3D"@,
        "CollisionShape2D"@,
        "CollisionShape3D"@,
        "AnimationPlayer"@,
        "AudioStreamPlayer"@,
        "Timer"@,
        "Label"@,
        "Button"@,
        "LineEdit"@,
        "TextEdit"@,
        "Panel"@,
        "Container"@,
        "HBoxContainer"@,
        "VBoxContainer"@,
        "GridContainer"@,
        "ScrollContainer"@,
        "TabContainer"@,
        "Resource"@,
        "PackedScene"@,
        "Texture2D"@,
        "Mesh"@,
        "Material"@,
        "Shader"@,
        "Script"@,
        "GDScript"@,
        "Object"@,
        "RefCounted"@,
        "Vector2"@,
        "Vector3"@,
        "Vector4"@,
        "Color"@,
        "Rect2"@,
        "Transform2D"@,
        "Transform3D"@,
        "Basis"@,
        "Quaternion"@,
        "AABB"@,
        "Plane"@,
        "Array"@,
        "Dictionary"@,
        "String"@,
        "StringName"@,
        "NodePath"@,
        "Signal"@,
        "Callable"@,
        "PackedByteArray"@,
        "PackedInt32Array"@,
        "PackedInt64Array"@,
        "PackedFloat32Array"@,
        "PackedFloat64Array"@,
        "PackedStringArray"@,
        "PackedVector2Array"@,
        "PackedVector3Array"@,
        "PackedColorArray"@,
        "Input"@,
        "InputEvent"@,
        "InputEventKey"@,
        "InputEventMouse"@,
        "InputEventMouseButton"@,
        "InputEventMouseMotion"@,
        "OS"@,
        "Engine"@,
        "ProjectSettings"@,
        "EditorInterface"@,
        "EditorPlugin"@,
        "SceneTree"@,
        "Viewport"@,
        "Window"@,
        "DisplayServer"@,
        "RenderingServer"@,
        "PhysicsServer2D"@,
        "PhysicsServer3D"@,
        "NavigationServer2D"@,
        "NavigationServer3D"@,
        "AudioServer"@,
        "Time"@,
        "Performance"@,
        "Geometry2D"@,
        "Geometry3D"@,
        "ResourceLoader"@,
        "ResourceSaver"@,
        "FileAccess"@,
        "DirAccess"@,
        "JSON"@,
        "XMLParser"@,
        "RegEx"@,
        "Tween"@,
        "AnimationTree"@,
        "AnimationNodeStateMachine"@,
        "AnimationNodeBlendTree"@,
        "AnimatedSprite2D"@,
        "AnimatedSprite3D"@,
        "TileMap"@,
        "TileSet"@,
        "CanvasItem"@,
        "CanvasLayer"@,
        "ParallaxBackground"@,
        "ParallaxLayer"@,
        "PathFollow2D"@,
        "PathFollow3D"@,
        "Path2D"@,
        "Path3D"@,
        "Curve"@,
        "Curve2D"@,
        "Curve3D"@,
        "Gradient"@,
        "GradientTexture1D"@,
        "GradientTexture2D"@,
        "Image"@,
        "ImageTexture"@,
        "AtlasTexture"@,
        "CompressedTexture2D"@,
        "Environment"@,
        "WorldEnvironment"@,
        "DirectionalLight3D"@,
        "OmniLight3D"@,
        "SpotLight3D"@,
        "Sky"@,
        "ProceduralSkyMaterial"@,
        "PhysicalSkyMaterial"@,
        "PanoramaSkyMaterial"@,
        "ShaderMaterial"@,
        "StandardMaterial3D"@,
        "ORMMaterial3D"@,
        "BaseMaterial3D"@,
        "HTTPRequest"@,
        "HTTPClient"@,
        "StreamPeer"@,
        "StreamPeerTCP"@,
        "StreamPeerTLS"@,
        "PacketPeer"@,
        "PacketPeerUDP"@,
        "TCPServer"@,
        "UDPServer"@,
        "WebSocketPeer"@,
        "MultiplayerAPI"@,
        "MultiplayerPeer"@,
        "ENetMultiplayerPeer"@,
        "WebSocketMultiplayerPeer"@,
        "Thread"@,
        "Mutex"@,
        "Semaphore"@
    ]
}

/// The first built-in class (in list order) the text mentions.
pub open spec fn first_native_from(content: Seq<char>, i: int) -> Option<Seq<char>>
    decreases native_classes().len() - i,
{
    if i < 0 || i >= native_classes().len() {
        None
    } else if contains(content, native_classes()[i]) {
        Some(native_classes()[i])
    } else {
        first_native_from(content, i + 1)
    }
}

/// The class a hover text points at: from a `Defined in` line, else the
/// first built-in class it mentions.
pub open spec fn class_from_defined_in_spec(content: Seq<char>) -> Option<Seq<char>> {
    match defined_in_lines(lines_of(content)) {
        Some(c) => Some(c),
        None => first_native_from(content, 0),
    }
}

fn native_class_list() -> (v: Vec<&'static str>)
    ensures
        v@.len() == native_classes().len(),
        forall|i: int| 0 <= i < v@.len() ==> #[trigger] v@[i]@ == native_classes()[i],
{
    let v = vec![
        "Node",
        "Node2D",
        "Node3D",
        "Control",
        "Sprite2D",
        "Sprite3D",
        "Camera2D",
        "Camera3D",
        "CharacterBody2D",
        "CharacterBody3D",
        "RigidBody2D",
        "RigidBody3D",
        "Area2D",
        "Area3D",
        "CollisionShape2D",
        "CollisionShape3D",
        "AnimationPlayer",
        "AudioStreamPlayer",
        "Timer",
        "Label",
        "Button",
        "LineEdit",
        "TextEdit",
        "Panel",
        "Container",
        "HBoxContainer",
        "VBoxContainer",
        "GridContainer",
        "ScrollContainer",
        "TabContainer",
        "Resource",
        "PackedScene",
        "Texture2D",
        "Mesh",
        "Material",
        "Shader",
        "Script",
        "GDScript",
        "Object",
        "RefCounted",
        "Vector2",
        "Vector3",
        "Vector4",
        "Color",
        "Rect2",
        "Transform2D",
        "Transform3D",
        "Basis",
        "Quaternion",
        "AABB",
        "Plane",
        "Array",
        "Dictionary",
        "String",
        "StringName",
        "NodePath",
        "Signal",
        "Callable",
        "PackedByteArray",
        "PackedInt32Array",
        "PackedInt64Array",
        "PackedFloat32Array",
        "PackedFloat64Array",
        "PackedStringArray",
        "PackedVector2Array",
        "PackedVector3Array",
        "PackedColorArray",
        "Input",
        "InputEvent",
        "InputEventKey",
        "InputEventMouse",
        "InputEventMouseButton",
        "InputEventMouseMotion",
        "OS",
        "Engine",
        "ProjectSettings",
        "EditorInterface",
        "EditorPlugin",
        "SceneTree",
        "Viewport",
        "Window",
        "DisplayServer",
        "RenderingServer",
        "PhysicsServer2D",
        "PhysicsServer3D",
        "NavigationServer2D",
        "NavigationServer3D",
        "AudioServer",
        "Time",
        "Performance",
        "Geometry2D",
        "Geometry3D",
        "ResourceLoader",
        "ResourceSaver",
        "FileAccess",
        "DirAccess",
        "JSON",
        "XMLParser",
        "RegEx",
        "Tween",
        "AnimationTree",
        "AnimationNodeStateMachine",
        "AnimationNodeBlendTree",
        "AnimatedSprite2D",
        "AnimatedSprite3D",
        "TileMap",
        "TileSet",
        "CanvasItem",
        "CanvasLayer",
        "ParallaxBackground",
        "ParallaxLayer",
        "PathFollow2D",
        "PathFollow3D",
        "Path2D",
        "Path3D",
        "Curve",
        "Curve2D",
        "Curve3D",
        "Gradient",
        "GradientTexture1D",
        "GradientTexture2D",
        "Image",
        "ImageTexture",
        "AtlasTexture",
        "CompressedTexture2D",
        "Environment",
        "WorldEnvironment",
        "DirectionalLight3D",
        "OmniLight3D",
        "SpotLight3D",
        "Sky",
        "ProceduralSkyMaterial",
        "PhysicalSkyMaterial",
        "PanoramaSkyMaterial",
        "ShaderMaterial",
        "StandardMaterial3D",
        "ORMMaterial3D",
        "BaseMaterial3D",
        "HTTPRequest",
        "HTTPClient",
        "StreamPeer",
        "StreamPeerTCP",
        "StreamPeerTLS",
        "PacketPeer",
        "PacketPeerUDP",
        "TCPServer",
        "UDPServer",
        "WebSocketPeer",
        "MultiplayerAPI",
        "MultiplayerPeer",
        "ENetMultiplayerPeer",
        "WebSocketMultiplayerPeer",
        "Thread",
        "Mutex",
        "Semaphore"
    ];
    v
}

fn defined_in_line_exec(line: &Vec<char>) -> (r: Option<Vec<char>>)
    ensures
        r matches Some(c) ==> defined_in_line(line@) == Some(c@),
        r is None ==> defined_in_line(line@) is None,
{
    if !contains_exec(line, &chars_of("Defined in")) {
        return None;
    }
    let st = match index_of_exec(line, '[') {
        Some(s) => s,
        None => {
            return None;
        },
    };
    proof {
        lemma_index_of_from(line@, '[', 0);
    }
    let tail = slice_of(line, st, line.len());
    let e = match index_of_exec(&tail, ']') {
        Some(e) => e,
        None => {
            return None;
        },
    };
    proof {
        lemma_index_of_from(tail@, ']', 0);
    }
    assert(e >= 1) by {
        if e == 0 {
            assert(tail@[0] == line@[st as int]);
        }
    }
    let path = slice_of(line, st + 1, st + e);
    let name = after_last_exec(&path, '/');
    let gd = chars_of(".gd");
    proof {
        reveal_strlit(".gd");
    }
    if name.len() >= 3 && name[name.len() - 3] == '.' && name[name.len() - 2] == 'g' && name[name.len() - 1] == 'd' {
        assert(name@.subrange(name@.len() - 3, name@.len() as int) =~= ".gd"@);
        let cls = to_pascal_case(&slice_of(&name, 0, name.len() - 3));
        if cls.len() > 0 {
            Some(cls)
        } else {
            None
        }
    } else {
        assert(!ends_with(name@, ".gd"@)) by {
            if name@.len() >= 3 {
                let t = name@.subrange(name@.len() - 3, name@.len() as int);
                if t == ".gd"@ {
                    assert(t[0] == name@[name@.len() - 3]);
                    assert(t[1] == name@[name@.len() - 2]);
                    assert(t[2] == name@[name@.len() - 1]);
                }
            }
        }
        None
    }
}

/// The class named in a hover text: a `Defined in [.../file.gd]` link,
/// else the first built-in class the text mentions.
pub fn extract_class_from_defined_in(content: &Vec<char>) -> (r: Option<Vec<char>>)
    ensures
        r matches Some(c) ==> class_from_defined_in_spec(content@) == Some(c@),
        r is None ==> class_from_defined_in_spec(content@) is None,
{
    let ls = lines_exec(content);
    let mut i: usize = 0;
    assert(texts_view(ls@).subrange(0, ls@.len() as int) =~= texts_view(ls@));
    while i < ls.len()
        invariant
            i <= ls@.len(),
            texts_view(ls@) == lines_of(content@),
            defined_in_lines(texts_view(ls@)) == defined_in_lines(texts_view(ls@).subrange(i as int, ls@.len() as int)),
        decreases ls.len() - i,
    {
        let ghost rest = texts_view(ls@).subrange(i as int, ls@.len() as int);
        assert(rest[0] == ls@[i as int]@);
        assert(rest.drop_first() =~= texts_view(ls@).subrange(i + 1, ls@.len() as int));
        match defined_in_line_exec(&ls[i]) {
            Some(c) => {
                return Some(c);
            },
            None => {},
        }
        i = i + 1;
    }
    assert(texts_view(ls@).subrange(i as int, ls@.len() as int) =~= Seq::<Seq<char>>::empty());
    let list = native_class_list();
    let mut j: usize = 0;
    while j < list.len()
        invariant
            j <= list@.len(),
            list@.len() == native_classes().len(),
            forall|k: int| 0 <= k < list@.len() ==> #[trigger] list@[k]@ == native_classes()[k],
            defined_in_lines(lines_of(content@)) is None,
            first_native_from(content@, 0) == first_native_from(content@, j as int),
        decreases list.len() - j,
    {
        let name = chars_of(list[j]);
        if contains_exec(content, &name) {
            return Some(name);
        }
        j = j + 1;
    }
    None
}

// ---------------------------------------------------------------------
// The help page for a hover answer
// ---------------------------------------------------------------------

/// The first line with `class Name`: the word after it.
pub open spec fn class_line(ls: Seq<Seq<char>>) -> Option<Seq<char>>
    decreases ls.len(),
{
    if ls.len() == 0 {
        None
    } else {
        let l = ls[0];
        match find(l, "class "@) {
            Some(i) => {
                let name = word_prefix(l.subrange(i + 6, l.len() as int));
                if name.len() > 0 { Some(name) } else { class_line(ls.drop_first()) }
            },
            None => class_line(ls.drop_first()),
        }
    }
}

pub open spec fn query(class_name: Seq<char>, member: Option<Seq<char>>, t: HelpMemberType) -> Option<HelpQueryView> {
    Some(HelpQueryOf { class_name, member_name: member, member_type: t })
}

/// The help page a hover text leads to, for the word `word` under the
/// cursor: a `var`/`const` member; a method or signal (named in the text,
/// or the word, in the class of the `Defined in` link); or a class.
pub open spec fn help_for_hover(content: Seq<char>, word: Seq<char>) -> Option<HelpQueryView> {
    let ls = lines_of(content);
    match class_member_in(ls) {
        Some((t, c, m)) => query(c, Some(m), t),
        None => {
            let func = contains(content, "func "@) && contains(content, "("@);
            let signal = contains(content, "signal "@) && contains(content, "("@);
            let fd = first_dotted(ls, "func "@);
            let sd = first_dotted(ls, "signal "@);
            if func && fd is Some {
                let (c, m) = fd->0;
                query(c, Some(m), HelpMemberType::Method)
            } else if func && class_from_defined_in_spec(content) is Some {
                query(class_from_defined_in_spec(content)->0, Some(word), HelpMemberType::Method)
            } else if signal && sd is Some {
                let (c, m) = sd->0;
                query(c, Some(m), HelpMemberType::Signal)
            } else if signal && class_from_defined_in_spec(content) is Some {
                query(class_from_defined_in_spec(content)->0, Some(word), HelpMemberType::Signal)
            } else if contains(content, "class "@) && class_line(ls) is Some {
                query(class_line(ls)->0, None, HelpMemberType::Class)
            } else {
                None
            }
        },
    }
}

fn copy_text(v: &Vec<char>) -> (r: Vec<char>)
    ensures
        r@ == v@,
{
    let r = slice_of(v, 0, v.len());
    assert(r@ =~= v@);
    r
}

fn class_line_exec(ls: &Vec<Vec<char>>) -> (r: Option<Vec<char>>)
    ensures
        r matches Some(c) ==> class_line(texts_view(ls@)) == Some(c@),
        r is None ==> class_line(texts_view(ls@)) is None,
{
    let key = chars_of("class ");
    proof {
        reveal_strlit("class ");
    }
    let mut i: usize = 0;
    assert(texts_view(ls@).subrange(0, ls@.len() as int) =~= texts_view(ls@));
    while i < ls.len()
        invariant
            i <= ls@.len(),
            key@ == "class "@,
            key@.len() == 6,
            class_line(texts_view(ls@)) == class_line(texts_view(ls@).subrange(i as int, ls@.len() as int)),
        decreases ls.len() - i,
    {
        let ghost rest = texts_view(ls@).subrange(i as int, ls@.len() as int);
        assert(rest[0] == ls@[i as int]@);
        assert(rest.drop_first() =~= texts_view(ls@).subrange(i + 1, ls@.len() as int));
        let l = &ls[i];
        match find_exec(l, &key) {
            Some(k) => {
                proof {
                    crate::text::lemma_find_from(l@, key@, 0);
                }
                let ll = l.len();
                assert(k + 6 <= ll);
                let name = word_prefix_from(l, k + 6);
                if name.len() > 0 {
                    return Some(name);
                }
            },
            None => {},
        }
        i = i + 1;
    }
    assert(texts_view(ls@).subrange(i as int, ls@.len() as int) =~= Seq::<Seq<char>>::empty());
    None
}

fn make_query(c: Vec<char>, m: Option<Vec<char>>, t: HelpMemberType) -> (r: Option<HelpQuery>)
    ensures
        opt_query_view(r) == query(c@, match m { Some(x) => Some(x@), None => None }, t),
{
    Some(HelpQueryOf { class_name: c, member_name: m, member_type: t })
}

/// Parse a hover text into the help page to open, for the word under the
/// cursor.
pub fn parse_hover_for_help(content: &Vec<char>, word: &Vec<char>) -> (r: Option<HelpQuery>)
    ensures
        opt_query_view(r) == help_for_hover(content@, word@),
{
    match match_class_member(content) {
        Some((t, c, m)) => {
            return make_query(c, Some(m), t);
        },
        None => {},
    }
    let func = contains_exec(content, &chars_of("func ")) && contains_exec(content, &chars_of("("));
    let signal = contains_exec(content, &chars_of("signal ")) && contains_exec(content, &chars_of("("));
    if func {
        match match_func_class_method(content) {
            Some((c, m)) => {
                return make_query(c, Some(m), HelpMemberType::Method);
            },
            None => {},
        }
        match extract_class_from_defined_in(content) {
            Some(c) => {
                return make_query(c, Some(copy_text(word)), HelpMemberType::Method);
            },
            None => {},
        }
    }
    if signal {
        match match_signal_class_member(content) {
            Some((c, m)) => {
                return make_query(c, Some(m), HelpMemberType::Signal);
            },
            None => {},
        }
        match extract_class_from_defined_in(content) {
            Some(c) => {
                return make_query(c, Some(copy_text(word)), HelpMemberType::Signal);
            },
            None => {},
        }
    }
    if contains_exec(content, &chars_of("class ")) {
        match class_line_exec(&lines_exec(content)) {
            Some(c) => {
                return make_query(c, None, HelpMemberType::Class);
            },
            None => {},
        }
    }
    None
}

// ---------------------------------------------------------------------
// K
// ---------------------------------------------------------------------

/// What `K` does for the word under the cursor.
pub enum DocLookup {
    /// No word under the cursor.
    NoWord,
    /// A capitalized word: open the class's page.
    Class(HelpQuery),
    /// Ask the language server about the word, then parse its answer with
    /// [`parse_hover_for_help`].
    Hover(Vec<char>),
}

/// The word `K` looks up: the run of word characters around the cursor
/// (it may end at the cursor).
pub open spec fn doc_word(line: Seq<char>, col: int) -> Option<Seq<char>> {
    if col < 0 || col >= line.len() || word_start(line, col) == word_end(line, col) {
        None
    } else {
        Some(line.subrange(word_start(line, col), word_end(line, col)))
    }
}

/// Decide how `K` looks up the word under the cursor.
pub fn open_documentation(line: &Vec<char>, col: usize) -> (r: DocLookup)
    ensures
        match r {
            DocLookup::NoWord => doc_word(line@, col as int) is None,
            DocLookup::Class(q) => doc_word(line@, col as int) matches Some(w) && char_is_uppercase(w[0])
                && query_view(q) == (HelpQueryOf { class_name: w, member_name: None, member_type: HelpMemberType::Class }),
            DocLookup::Hover(w) => doc_word(line@, col as int) == Some(w@) && !char_is_uppercase(w@[0]),
        },
{
    if col >= line.len() {
        return DocLookup::NoWord;
    }
    let (start, end) = crate::search::word_bounds(line, col);
    if start == end {
        return DocLookup::NoWord;
    }
    let w = slice_of(line, start, end);
    if is_uppercase(w[0]) {
        DocLookup::Class(HelpQueryOf { class_name: w, member_name: None, member_type: HelpMemberType::Class })
    } else {
        DocLookup::Hover(w)
    }
}

} // verus!
