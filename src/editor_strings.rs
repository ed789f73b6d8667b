use vstd::prelude::*;

verus! {

#[derive(Clone, Debug)]
pub struct AppStrings {
    pub window_title: String,
}

#[derive(Clone, Debug)]
pub struct MenuStrings {
    pub file: String,
    pub bake: String,
    pub save: String,
    pub load: String,
}

#[derive(Clone, Debug)]
pub struct GraphPanelStrings {
    pub title: String,
    pub hint: String,
    pub add_node: String,
    pub clear: String,
    pub node_prefix: String,
}

#[derive(Clone, Debug)]
pub struct PreviewStrings {
    pub title: String,
    pub resolution: String,
    pub generate: String,
    pub channel: String,
    pub r: String,
    pub g: String,
    pub b: String,
    pub width_short: String,
    pub height_short: String,
    pub open_window: String,
    pub window_title: String,
}

/// Every text of the noise editor's interface.
#[derive(Clone, Debug)]
pub struct UiStrings {
    pub app: AppStrings,
    pub menu: MenuStrings,
    pub graph_panel: GraphPanelStrings,
    pub preview: PreviewStrings,
}

impl UiStrings {
    /// The built-in English texts.
    pub fn english() -> (r: UiStrings)
        ensures
            r.app.window_title@ == "Noise Editor"@,
            r.menu.file@ == "File"@,
            r.graph_panel.title@ == "Graph"@,
            r.preview.open_window@ == "Open Preview Window"@,
    {
        UiStrings {
            app: AppStrings { window_title: "Noise Editor".to_owned() },
            menu: MenuStrings {
                file: "File".to_owned(),
                bake: "Bake".to_owned(),
                save: "Save".to_owned(),
                load: "Load".to_owned(),
            },
            graph_panel: GraphPanelStrings {
                title: "Graph".to_owned(),
                hint: "Edit nodes and connections".to_owned(),
                add_node: "Add Node".to_owned(),
                clear: "Clear".to_owned(),
                node_prefix: "Node".to_owned(),
            },
            preview: PreviewStrings {
                title: "Preview".to_owned(),
                resolution: "Resolution".to_owned(),
                generate: "Generate".to_owned(),
                channel: "Channel".to_owned(),
                r: "R".to_owned(),
                g: "G".to_owned(),
                b: "B".to_owned(),
                width_short: "W".to_owned(),
                height_short: "H".to_owned(),
                open_window: "Open Preview Window".to_owned(),
                window_title: "Preview".to_owned(),
            },
        }
    }
}

impl Default for UiStrings {
    fn default() -> (r: UiStrings)
        ensures
            r.app.window_title@ == "Noise Editor"@,
    {
        UiStrings::english()
    }
}

} // verus!
