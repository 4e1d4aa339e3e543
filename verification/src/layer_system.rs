//! Canvas layers: named layers that can be shown or hidden (their opacity, a
//! float, is the renderer's).

use vstd::prelude::*;
use crate::text::str_eq;

verus! {

/// A layer of the canvas.
#[derive(Debug, Clone)]
pub struct Layer {
    pub id: String,
    pub name: String,
    pub visible: bool,
    pub locked: bool,
}

/// The layers of a canvas, in order, and the active one.
#[derive(Debug, Clone)]
pub struct LayerSystem {
    pub layers: Vec<Layer>,
    pub active_layer: Option<String>,
}

/// `j` is the first position of a layer with id `id`.
pub open spec fn is_first_layer(layers: Seq<Layer>, id: Seq<char>, j: int) -> bool {
    &&& 0 <= j < layers.len()
    &&& layers[j].id@ == id
    &&& forall|k: int| 0 <= k < j ==> #[trigger] layers[k].id@ != id
}

impl LayerSystem {
    /// No layers and none active.
    pub fn new() -> (r: Self)
        ensures
            r.layers@.len() == 0,
            r.active_layer is None,
    {
        LayerSystem { layers: Vec::new(), active_layer: None }
    }

    /// Adds a visible, unlocked layer at the end.
    pub fn layer(self, id: &str, name: &str) -> (r: Self)
        ensures
            r.layers@.len() == self.layers@.len() + 1,
            r.layers@.drop_last() == self.layers@,
            r.layers@.last().id@ == id@,
            r.layers@.last().name@ == name@,
            r.layers@.last().visible,
            !r.layers@.last().locked,
            r.active_layer == self.active_layer,
    {
        let mut layers = self.layers;
        layers.push(Layer { id: id.to_string(), name: name.to_string(), visible: true, locked: false });
        assert(layers@.drop_last() =~= self.layers@);
        LayerSystem { layers, active_layer: self.active_layer }
    }

    /// Shows or hides the first layer with id `id`; without one nothing
    /// changes.
    pub fn visible(self, id: &str, visible: bool) -> (r: Self)
        ensures
            r.active_layer == self.active_layer,
            r.layers@.len() == self.layers@.len(),
            forall|j: int| is_first_layer(self.layers@, id@, j) ==> r.layers@ == self.layers@.update(
                j,
                Layer { visible, ..self.layers@[j] },
            ),
            (forall|j: int| !is_first_layer(self.layers@, id@, j)) ==> r.layers@ == self.layers@,
    {
        let mut s = self;
        let ghost old_layers = s.layers@;
        let mut i: usize = 0;
        while i < s.layers.len()
            invariant
                i <= s.layers@.len(),
                s.layers@ == old_layers,
                s.active_layer == self.active_layer,
                old_layers == self.layers@,
                forall|k: int| 0 <= k < i ==> #[trigger] s.layers@[k].id@ != id@,
            decreases s.layers@.len() - i,
        {
            if str_eq(s.layers[i].id.as_str(), id) {
                proof {
                    assert(is_first_layer(old_layers, id@, i as int));
                    assert forall|j: int| is_first_layer(old_layers, id@, j) implies j == i by {
                        if j < i {
                            assert(old_layers[j].id@ != id@);
                        } else if j > i {
                            assert(old_layers[i as int].id@ == id@);
                        }
                    }
                }
                s.layers[i].visible = visible;
                assert(s.layers@ =~= old_layers.update(i as int, Layer { visible, ..old_layers[i as int] }));
                return s;
            }
            i = i + 1;
        }
        proof {
            assert forall|j: int| !is_first_layer(old_layers, id@, j) by {
                if 0 <= j < old_layers.len() {
                    assert(old_layers[j].id@ != id@);
                }
            }
        }
        s
    }
}

impl Default for LayerSystem {
    fn default() -> (r: Self)
        ensures
            r.layers@.len() == 0,
            r.active_layer is None,
    {
        Self::new()
    }
}

} // verus!
