//! The component types that the editor offers to add to an entity, grouped
//! by category.

use vstd::prelude::*;

verus! {

/// Categories of components available in the editor.
#[derive(Debug, Clone, Copy, PartialEq, Eq, Structural)]
pub enum ComponentCategory {
    Core,
    Rendering,
    Audio,
    UI,
    Physics,
    Animation,
    Custom,
}

/// A component type that can be added in the editor. The code that
/// inserts it into an entity is looked up by `name` on the engine side.
#[derive(Clone, Copy)]
pub struct ComponentInfo {
    pub name: &'static str,
    pub category: ComponentCategory,
    pub description: &'static str,
}

/// The built-in components, in registration order.
pub open spec fn builtin_components() -> Seq<(&'static str, ComponentCategory, &'static str)> {
    seq![
        ("Transform", ComponentCategory::Core, "Position, rotation, and scale"),
        ("Name", ComponentCategory::Core, "Entity name for identification"),
        ("Visibility", ComponentCategory::Core, "Controls visibility in rendering"),
        ("Sprite", ComponentCategory::Rendering, "2D sprite rendering"),
        ("Camera2D", ComponentCategory::Rendering, "2D camera"),
        ("Node", ComponentCategory::UI, "UI container element"),
        ("Button", ComponentCategory::UI, "Interactive button"),
        ("Text", ComponentCategory::UI, "Text rendering"),
        ("BackgroundColor", ComponentCategory::UI, "UI element background color"),
    ]
}

/// The fields of a component entry.
pub open spec fn info_fields(c: ComponentInfo) -> (&'static str, ComponentCategory, &'static str) {
    (c.name, c.category, c.description)
}

/// Registry of the component types available in the editor.
pub struct ComponentRegistry {
    components: Vec<ComponentInfo>,
}

impl ComponentRegistry {
    /// The registered components, in registration order.
    pub closed spec fn entries(&self) -> Seq<ComponentInfo> {
        self.components@
    }

    /// A registry holding the built-in core, rendering, audio and UI
    /// components.
    pub fn new() -> (r: Self)
        ensures
            r.entries().map_values(|c: ComponentInfo| info_fields(c)) == builtin_components(),
    {
        let mut registry = ComponentRegistry { components: Vec::new() };
        registry.register_core_components();
        registry.register_rendering_components();
        registry.register_audio_components();
        registry.register_ui_components();
        assert(registry.components@.map_values(|c: ComponentInfo| info_fields(c)) =~= builtin_components());
        registry
    }

    /// The registered components of `category`, in registration order.
    pub fn get_by_category(&self, category: ComponentCategory) -> (r: Vec<&ComponentInfo>)
        ensures
            r@.map_values(|c: &ComponentInfo| *c) == self.entries().filter(|c: ComponentInfo| c.category == category),
    {
        let ghost pred = |c: ComponentInfo| c.category == category;
        let mut r: Vec<&ComponentInfo> = Vec::new();
        let mut i: usize = 0;
        while i < self.components.len()
            invariant
                i <= self.components@.len(),
                pred == (|c: ComponentInfo| c.category == category),
                r@.map_values(|c: &ComponentInfo| *c) == self.components@.take(i as int).filter(pred),
            decreases self.components@.len() - i,
        {
            let c = &self.components[i];
            proof {
                assert(self.components@.take(i + 1) =~= self.components@.take(i as int).push(*c));
                self.components@.take(i as int).lemma_filter_push(*c, pred);
            }
            if c.category == category {
                r.push(c);
            }
            assert(r@.map_values(|c: &ComponentInfo| *c) =~= self.components@.take(i + 1).filter(pred));
            i = i + 1;
        }
        assert(self.components@.take(self.components@.len() as int) =~= self.components@);
        r
    }

    /// All categories, in display order.
    pub fn categories(&self) -> (r: Vec<ComponentCategory>)
        ensures
            r@ == seq![
                ComponentCategory::Core,
                ComponentCategory::Rendering,
                ComponentCategory::Audio,
                ComponentCategory::UI,
                ComponentCategory::Physics,
                ComponentCategory::Animation,
                ComponentCategory::Custom,
            ],
    {
        let r = vec![
            ComponentCategory::Core,
            ComponentCategory::Rendering,
            ComponentCategory::Audio,
            ComponentCategory::UI,
            ComponentCategory::Physics,
            ComponentCategory::Animation,
            ComponentCategory::Custom,
        ];
        assert(r@ =~= seq![
            ComponentCategory::Core,
            ComponentCategory::Rendering,
            ComponentCategory::Audio,
            ComponentCategory::UI,
            ComponentCategory::Physics,
            ComponentCategory::Animation,
            ComponentCategory::Custom,
        ]);
        r
    }

    /// Display name of a category.
    pub fn category_name(category: ComponentCategory) -> (r: &'static str)
        ensures
            r == match category {
                ComponentCategory::Core => "Core",
                ComponentCategory::Rendering => "Rendering",
                ComponentCategory::Audio => "Audio",
                ComponentCategory::UI => "UI",
                ComponentCategory::Physics => "Physics",
                ComponentCategory::Animation => "Animation",
                ComponentCategory::Custom => "Custom",
            },
    {
        match category {
            ComponentCategory::Core => "Core",
            ComponentCategory::Rendering => "Rendering",
            ComponentCategory::Audio => "Audio",
            ComponentCategory::UI => "UI",
            ComponentCategory::Physics => "Physics",
            ComponentCategory::Animation => "Animation",
            ComponentCategory::Custom => "Custom",
        }
    }

    fn register(&mut self, name: &'static str, category: ComponentCategory, description: &'static str)
        ensures
            final(self).components@ == old(self).components@.push(ComponentInfo { name, category, description }),
    {
        self.components.push(ComponentInfo { name, category, description });
    }

    fn register_core_components(&mut self)
        ensures
            final(self).components@ == old(self).components@ + seq![
                ComponentInfo { name: "Transform", category: ComponentCategory::Core, description: "Position, rotation, and scale" },
                ComponentInfo { name: "Name", category: ComponentCategory::Core, description: "Entity name for identification" },
                ComponentInfo { name: "Visibility", category: ComponentCategory::Core, description: "Controls visibility in rendering" },
            ],
    {
        self.register("Transform", ComponentCategory::Core, "Position, rotation, and scale");
        self.register("Name", ComponentCategory::Core, "Entity name for identification");
        self.register("Visibility", ComponentCategory::Core, "Controls visibility in rendering");
        assert(self.components@ =~= old(self).components@ + seq![
            ComponentInfo { name: "Transform", category: ComponentCategory::Core, description: "Position, rotation, and scale" },
            ComponentInfo { name: "Name", category: ComponentCategory::Core, description: "Entity name for identification" },
            ComponentInfo { name: "Visibility", category: ComponentCategory::Core, description: "Controls visibility in rendering" },
        ]);
    }

    fn register_rendering_components(&mut self)
        ensures
            final(self).components@ == old(self).components@ + seq![
                ComponentInfo { name: "Sprite", category: ComponentCategory::Rendering, description: "2D sprite rendering" },
                ComponentInfo { name: "Camera2D", category: ComponentCategory::Rendering, description: "2D camera" },
            ],
    {
        self.register("Sprite", ComponentCategory::Rendering, "2D sprite rendering");
        self.register("Camera2D", ComponentCategory::Rendering, "2D camera");
        assert(self.components@ =~= old(self).components@ + seq![
            ComponentInfo { name: "Sprite", category: ComponentCategory::Rendering, description: "2D sprite rendering" },
            ComponentInfo { name: "Camera2D", category: ComponentCategory::Rendering, description: "2D camera" },
        ]);
    }

    /// No audio component is offered yet.
    fn register_audio_components(&mut self)
        ensures
            final(self).components@ == old(self).components@,
    {
    }

    fn register_ui_components(&mut self)
        ensures
            final(self).components@ == old(self).components@ + seq![
                ComponentInfo { name: "Node", category: ComponentCategory::UI, description: "UI container element" },
                ComponentInfo { name: "Button", category: ComponentCategory::UI, description: "Interactive button" },
                ComponentInfo { name: "Text", category: ComponentCategory::UI, description: "Text rendering" },
                ComponentInfo { name: "BackgroundColor", category: ComponentCategory::UI, description: "UI element background color" },
            ],
    {
        self.register("Node", ComponentCategory::UI, "UI container element");
        self.register("Button", ComponentCategory::UI, "Interactive button");
        self.register("Text", ComponentCategory::UI, "Text rendering");
        self.register("BackgroundColor", ComponentCategory::UI, "UI element background color");
        assert(self.components@ =~= old(self).components@ + seq![
            ComponentInfo { name: "Node", category: ComponentCategory::UI, description: "UI container element" },
            ComponentInfo { name: "Button", category: ComponentCategory::UI, description: "Interactive button" },
            ComponentInfo { name: "Text", category: ComponentCategory::UI, description: "Text rendering" },
            ComponentInfo { name: "BackgroundColor", category: ComponentCategory::UI, description: "UI element background color" },
        ]);
    }
}

impl Default for ComponentRegistry {
    fn default() -> (r: Self)
        ensures
            r.entries().map_values(|c: ComponentInfo| info_fields(c)) == builtin_components(),
    {
        Self::new()
    }
}

/// The component registry held by the editor.
pub struct EditorComponentRegistry {
    pub registry: ComponentRegistry,
}

impl Default for EditorComponentRegistry {
    fn default() -> (r: Self)
        ensures
            r.registry.entries().map_values(|c: ComponentInfo| info_fields(c)) == builtin_components(),
    {
        EditorComponentRegistry { registry: ComponentRegistry::new() }
    }
}

} // verus!
