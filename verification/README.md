# ft_engine

A small entity-component-system library and the decision logic of a Vulkan
renderer, verified with Verus.

- `src/` is the verified library:
  - `entity`, `storage`, `resource`, `query`, `system`, `world`: entities,
    components stored by kind and holder, resources, queries and systems;
  - `text`, `obj_asset`: reading the `f` lines of OBJ models;
  - `surface`, `queue_families`, `descriptor`, `pipeline`, `frame`: the choices
    the renderer makes (surface format, present mode, image size and count,
    device and queue families, descriptor pool bookkeeping, pipeline settings,
    frame slots);
  - `hex`: hexadecimal dumps of bytes;
  - `input`: the keys held down;
  - `assoc`: the map that a list of keys and values describes.
- `app/` holds what talks to Vulkan (`ash`, `vk-mem`), the window system
  (`winit`), float math (`glam`), and the run-time typing of components.
- `tests/` runs the library on concrete values.
